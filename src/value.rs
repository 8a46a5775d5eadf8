//! A generic structured document (tables, arrays, scalars) and path lookup into it.
use vstd::prelude::*;
use vstd::string::StringSliceAdditionalSpecFns;

verus! {

/// A parsed manifest document: a tree of tables, arrays and scalars.
///
/// A table keeps its entries in order; a lookup by key finds the first entry
/// that carries the key.
#[derive(Debug, PartialEq, Eq)]
pub enum Value {
    Null,
    Bool(bool),
    /// A number, held as its decimal text.
    Number(String),
    Str(String),
    Array(Vec<Value>),
    Object(Vec<(String, Value)>),
}

/// The value of a run of ASCII decimal digits.
pub open spec fn digits_value(d: Seq<u8>) -> nat
    decreases d.len(),
{
    if d.len() == 0 {
        0
    } else {
        digits_value(d.drop_last()) * 10 + (d.last() - 48) as nat
    }
}

pub open spec fn is_digit(b: u8) -> bool {
    48 <= b <= 57
}

pub open spec fn all_digits(d: Seq<u8>) -> bool {
    forall|i: int| 0 <= i < d.len() ==> is_digit(#[trigger] d[i])
}

/// What follows an optional leading `+`.
pub open spec fn unsigned_digits(s: Seq<u8>) -> Seq<u8> {
    if s.len() > 0 && s[0] == 43 {
        s.drop_first()
    } else {
        s
    }
}

/// The index that a path segment names, read as an unsigned decimal number
/// that fits in `usize`: an optional `+`, then one or more digits.
pub open spec fn parse_index(s: Seq<u8>) -> Option<nat> {
    let d = unsigned_digits(s);
    if d.len() > 0 && all_digits(d) && digits_value(d) <= usize::MAX {
        Some(digits_value(d))
    } else {
        None
    }
}

/// True when `i` is the first entry of `entries` whose key is `key`.
pub open spec fn is_first_key(entries: Seq<(String, Value)>, key: Seq<char>, i: int) -> bool {
    &&& 0 <= i < entries.len()
    &&& entries[i].0@ == key
    &&& forall|j: int| 0 <= j < i ==> (#[trigger] entries[j]).0@ != key
}

/// The position of the first entry of `entries` whose key is `key`.
pub open spec fn key_position(entries: Seq<(String, Value)>, key: Seq<char>) -> Option<int> {
    if exists|i: int| is_first_key(entries, key, i) {
        Some(choose|i: int| is_first_key(entries, key, i))
    } else {
        None
    }
}

/// The child of `v` that one path segment names: a table is searched by key,
/// an array by index; a scalar has no children.
pub open spec fn child(v: Value, seg: &str) -> Option<Value> {
    match v {
        Value::Object(entries) => match key_position(entries@, seg@) {
            Some(i) => Some(entries@[i].1),
            None => None,
        },
        Value::Array(items) => match parse_index(seg.spec_bytes()) {
            Some(n) => if n < items@.len() {
                Some(items@[n as int])
            } else {
                None
            },
            None => None,
        },
        _ => None,
    }
}

/// The subtree that `path` addresses in `v`, segment by segment.
pub open spec fn lookup_path(v: Value, path: Seq<&str>) -> Option<Value>
    decreases path.len(),
{
    if path.len() == 0 {
        Some(v)
    } else {
        match child(v, path[0]) {
            Some(c) => lookup_path(c, path.drop_first()),
            None => None,
        }
    }
}

proof fn lemma_first_key_unique(entries: Seq<(String, Value)>, key: Seq<char>, i: int)
    requires
        is_first_key(entries, key, i),
    ensures
        key_position(entries, key) == Some(i),
{
    let k = choose|k: int| is_first_key(entries, key, k);
    if k < i {
        assert(entries[k].0@ != key);
    } else if i < k {
        assert(entries[i].0@ != key);
    }
}

proof fn lemma_digits_prefix_grows(d: Seq<u8>, i: int)
    requires
        0 <= i <= d.len(),
    ensures
        digits_value(d.take(i)) <= digits_value(d),
    decreases d.len(),
{
    if i < d.len() {
        assert(d.drop_last().take(i) =~= d.take(i));
        lemma_digits_prefix_grows(d.drop_last(), i);
    } else {
        assert(d.take(i) =~= d);
    }
}

/// Reads a path segment as an array index, as `str::parse::<usize>` does.
pub fn parse_index_exec(seg: &str) -> (r: Option<usize>)
    ensures
        match r {
            Some(n) => parse_index(seg.spec_bytes()) == Some(n as nat),
            None => parse_index(seg.spec_bytes()) is None,
        },
{
    let b = seg.as_bytes();
    let mut start: usize = 0;
    if b.len() > 0 && b[0] == 43 {
        start = 1;
    }
    let ghost d = b@.subrange(start as int, b@.len() as int);
    assert(d =~= unsigned_digits(b@));
    if start >= b.len() {
        return None;
    }
    let mut acc: usize = 0;
    let mut i: usize = start;
    while i < b.len()
        invariant
            start <= i <= b@.len(),
            d == b@.subrange(start as int, b@.len() as int),
            d == unsigned_digits(b@),
            b@ == seg.spec_bytes(),
            acc as nat == digits_value(d.take(i - start)),
            forall|j: int| 0 <= j < i - start ==> is_digit(#[trigger] d[j]),
        decreases b.len() - i,
    {
        let c = b[i];
        if c < 48 || c > 57 {
            assert(!is_digit(d[i - start]));
            return None;
        }
        assert(d.take(i + 1 - start).drop_last() =~= d.take(i - start));
        let next = match acc.checked_mul(10) {
            Some(m) => m.checked_add((c - 48) as usize),
            None => None,
        };
        match next {
            Some(n) => {
                acc = n;
            },
            None => {
                proof {
                    lemma_digits_prefix_grows(d, i + 1 - start);
                }
                return None;
            },
        }
        i += 1;
    }
    assert(d.take(i - start) =~= d);
    Some(acc)
}

/// The position of the first entry of `entries` whose key is `key`.
fn find_key(entries: &Vec<(String, Value)>, key: &str) -> (r: Option<usize>)
    ensures
        match r {
            Some(i) => key_position(entries@, key@) == Some(i as int),
            None => key_position(entries@, key@) is None,
        },
{
    let wanted: String = key.to_owned();
    assert(wanted@ == key@);
    let mut i: usize = 0;
    while i < entries.len()
        invariant
            0 <= i <= entries@.len(),
            wanted@ == key@,
            forall|j: int| 0 <= j < i ==> (#[trigger] entries@[j]).0@ != key@,
        decreases entries.len() - i,
    {
        if entries[i].0 == wanted {
            proof {
                lemma_first_key_unique(entries@, key@, i as int);
            }
            return Some(i);
        }
        i += 1;
    }
    proof {
        if exists|k: int| is_first_key(entries@, key@, k) {
            let k = choose|k: int| is_first_key(entries@, key@, k);
            assert(entries@[k].0@ != key@);
        }
    }
    None
}

/// Takes the child of `v` that `seg` names, consuming `v`.
fn take_child(v: Value, seg: &str) -> (r: Option<Value>)
    ensures
        r == child(v, seg),
{
    match v {
        Value::Object(mut entries) => match find_key(&entries, seg) {
            Some(i) => {
                let (_, c) = entries.remove(i);
                Some(c)
            },
            None => None,
        },
        Value::Array(mut items) => match parse_index_exec(seg) {
            Some(n) => if n < items.len() {
                Some(items.remove(n))
            } else {
                None
            },
            None => None,
        },
        _ => None,
    }
}

/// Borrows the child of `v` that `seg` names.
pub(crate) fn child_ref<'a>(v: &'a Value, seg: &str) -> (r: Option<&'a Value>)
    ensures
        match r {
            Some(c) => child(*v, seg) == Some(*c),
            None => child(*v, seg) is None,
        },
{
    match v {
        Value::Object(entries) => match find_key(entries, seg) {
            Some(i) => Some(&entries[i].1),
            None => None,
        },
        Value::Array(items) => match parse_index_exec(seg) {
            Some(n) => if n < items.len() {
                Some(&items[n])
            } else {
                None
            },
            None => None,
        },
        _ => None,
    }
}

/// Takes the subtree of `value` that `path` addresses, consuming `value`;
/// `None` where a key or an index along the path is missing, or a scalar is
/// met before the path ends.
pub fn lookup(value: Value, path: &[&str]) -> (r: Option<Value>)
    ensures
        r == lookup_path(value, path@),
{
    let ghost whole = value;
    let mut cur = value;
    let mut i: usize = 0;
    assert(path@.subrange(0, path@.len() as int) =~= path@);
    while i < path.len()
        invariant
            0 <= i <= path@.len(),
            whole == value,
            lookup_path(whole, path@) == lookup_path(cur, path@.subrange(i as int, path@.len() as int)),
        decreases path.len() - i,
    {
        let ghost rest = path@.subrange(i as int, path@.len() as int);
        assert(rest.drop_first() =~= path@.subrange(i + 1, path@.len() as int));
        assert(rest[0] == path@[i as int]);
        match take_child(cur, path[i]) {
            Some(c) => {
                cur = c;
            },
            None => {
                return None;
            },
        }
        i += 1;
    }
    assert(path@.subrange(i as int, path@.len() as int) =~= Seq::<&str>::empty());
    Some(cur)
}

/// Borrows the subtree of `value` that `path` addresses, leaving `value` intact.
pub fn lookup_ref<'a>(value: &'a Value, path: &[&str]) -> (r: Option<&'a Value>)
    ensures
        match r {
            Some(c) => lookup_path(*value, path@) == Some(*c),
            None => lookup_path(*value, path@) is None,
        },
{
    let mut cur: &Value = value;
    let mut i: usize = 0;
    assert(path@.subrange(0, path@.len() as int) =~= path@);
    while i < path.len()
        invariant
            0 <= i <= path@.len(),
            lookup_path(*value, path@) == lookup_path(*cur, path@.subrange(i as int, path@.len() as int)),
        decreases path.len() - i,
    {
        let ghost rest = path@.subrange(i as int, path@.len() as int);
        assert(rest.drop_first() =~= path@.subrange(i + 1, path@.len() as int));
        assert(rest[0] == path@[i as int]);
        match child_ref(cur, path[i]) {
            Some(c) => {
                cur = c;
            },
            None => {
                return None;
            },
        }
        i += 1;
    }
    assert(path@.subrange(i as int, path@.len() as int) =~= Seq::<&str>::empty());
    Some(cur)
}

/// The empty path addresses the whole tree: looking it up gives the tree back unchanged.
pub proof fn lemma_lookup_empty_path(v: Value)
    ensures
        lookup_path(v, Seq::<&str>::empty()) == Some(v),
{
}

/// A lookup finds nothing, without error, as soon as one segment of the path
/// names no child of the subtree reached so far: a key absent from a table,
/// an index out of range or not a number for an array, anything below a scalar.
pub proof fn lemma_lookup_missing_step(v: Value, path: Seq<&str>, k: int)
    requires
        0 <= k < path.len(),
        lookup_path(v, path.take(k)) is Some,
        child(lookup_path(v, path.take(k))->Some_0, path[k]) is None,
    ensures
        lookup_path(v, path) is None,
    decreases k,
{
    if k > 0 {
        let c = child(v, path[0])->Some_0;
        assert(path.take(k).drop_first() =~= path.drop_first().take(k - 1));
        assert(path.take(k)[0] == path[0]);
        lemma_lookup_missing_step(c, path.drop_first(), k - 1);
    } else {
        assert(path.take(0) =~= Seq::<&str>::empty());
    }
}

} // verus!
