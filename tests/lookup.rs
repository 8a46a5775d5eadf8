use cargo_pack::value::parse_index_exec;
use cargo_pack::{lookup, lookup_ref, Value};

fn s(x: &str) -> String {
    x.to_string()
}

fn num(x: &str) -> Value {
    Value::Number(s(x))
}

fn table(entries: Vec<(&str, Value)>) -> Value {
    Value::Object(entries.into_iter().map(|(k, v)| (s(k), v)).collect())
}

fn sample() -> Value {
    table(vec![("a", Value::Array(vec![num("10"), num("20"), num("30")]))])
}

#[test]
fn empty_path_returns_tree_unchanged() {
    assert_eq!(lookup(sample(), &[]), Some(sample()));
    let t = sample();
    assert_eq!(lookup_ref(&t, &[]), Some(&sample()));
    assert_eq!(lookup(Value::Bool(true), &[]), Some(Value::Bool(true)));
}

#[test]
fn array_index_lookup() {
    assert_eq!(lookup(sample(), &["a", "1"]), Some(num("20")));
    let t = sample();
    assert_eq!(lookup_ref(&t, &["a", "1"]), Some(&num("20")));
    assert_eq!(lookup(sample(), &["a", "+2"]), Some(num("30")));
}

#[test]
fn nested_array_then_table() {
    let t = table(vec![("a", Value::Array(vec![table(vec![("b", num("1"))])]))]);
    assert_eq!(lookup(t, &["a", "0", "b"]), Some(num("1")));
}

#[test]
fn missing_key_gives_nothing() {
    assert_eq!(lookup(sample(), &["b"]), None);
    assert_eq!(lookup(sample(), &["b", "0"]), None);
    let t = sample();
    assert_eq!(lookup_ref(&t, &["x"]), None);
}

#[test]
fn index_out_of_range_or_not_a_number_gives_nothing() {
    assert_eq!(lookup(sample(), &["a", "3"]), None);
    assert_eq!(lookup(sample(), &["a", "x"]), None);
    assert_eq!(lookup(sample(), &["a", "-1"]), None);
    assert_eq!(lookup(sample(), &["a", ""]), None);
    assert_eq!(lookup(sample(), &["a", "+"]), None);
    assert_eq!(lookup(sample(), &["a", "99999999999999999999999"]), None);
}

#[test]
fn scalar_has_no_children() {
    assert_eq!(lookup(sample(), &["a", "0", "x"]), None);
    assert_eq!(lookup(Value::Str(s("text")), &["0"]), None);
    assert_eq!(lookup(Value::Null, &["a"]), None);
}

#[test]
fn numeric_key_in_table_is_a_key() {
    let t = table(vec![("0", num("7")), ("1", num("8"))]);
    assert_eq!(lookup(t, &["1"]), Some(num("8")));
}

#[test]
fn first_entry_with_key_wins() {
    let t = table(vec![("k", num("1")), ("k", num("2"))]);
    assert_eq!(lookup(t, &["k"]), Some(num("1")));
}

#[test]
fn index_parsing() {
    assert_eq!(parse_index_exec("0"), Some(0));
    assert_eq!(parse_index_exec("42"), Some(42));
    assert_eq!(parse_index_exec("+7"), Some(7));
    assert_eq!(parse_index_exec("007"), Some(7));
    assert_eq!(parse_index_exec(&usize::MAX.to_string()), Some(usize::MAX));
    assert_eq!(parse_index_exec("18446744073709551616"), None);
    assert_eq!(parse_index_exec(""), None);
    assert_eq!(parse_index_exec("+"), None);
    assert_eq!(parse_index_exec("-0"), None);
    assert_eq!(parse_index_exec("1a"), None);
    assert_eq!(parse_index_exec(" 1"), None);
}
