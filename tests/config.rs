use cargo_pack::{decode_pack_config, find_section, load_config, CargoPack, Metadata, Package, PackConfig, PackError, Value};

fn s(x: &str) -> String {
    x.to_string()
}

fn table(entries: Vec<(&str, Value)>) -> Value {
    Value::Object(entries.into_iter().map(|(k, v)| (s(k), v)).collect())
}

fn strs(items: &[&str]) -> Value {
    Value::Array(items.iter().map(|x| Value::Str(s(x))).collect())
}

fn manifest(section: Value) -> Value {
    table(vec![("package", table(vec![("metadata", table(vec![("pack", section)]))]))])
}

fn cfg(files: &[&str], packers: &[&str]) -> PackConfig {
    PackConfig {
        files: files.iter().map(|x| s(x)).collect(),
        default_packers: packers.iter().map(|x| s(x)).collect(),
    }
}

fn workspace(packages: Vec<(&str, Value)>) -> Metadata {
    Metadata {
        packages: packages
            .into_iter()
            .map(|(n, m)| Package { name: s(n), manifest_path: format!("/ws/{}/Cargo.toml", n), metadata: m })
            .collect(),
        current: None,
    }
}

#[test]
fn round_trip_from_full_manifest() {
    let doc = manifest(table(vec![("files", strs(&["a", "b"]))]));
    let r = load_config(&doc, &["package", "metadata", "pack"], true);
    assert_eq!(r, Ok(cfg(&["a", "b"], &[])));
}

#[test]
fn empty_section_gives_empty_config() {
    let doc = manifest(table(vec![]));
    assert_eq!(load_config(&doc, &["package", "metadata", "pack"], true), Ok(cfg(&[], &[])));
    assert_eq!(decode_pack_config(&table(vec![])), Ok(cfg(&[], &[])));
}

#[test]
fn absent_section_is_missing() {
    let doc = table(vec![("package", table(vec![("metadata", table(vec![]))]))]);
    assert_eq!(load_config(&doc, &["package", "metadata", "pack"], true), Err(PackError::MissingSection));
    assert_eq!(find_section(&doc, &["package", "metadata", "pack"]), Err(PackError::MissingSection));
}

#[test]
fn absent_section_is_empty_when_lenient() {
    let doc = table(vec![]);
    assert_eq!(load_config(&doc, &["pack"], false), Ok(cfg(&[], &[])));
}

#[test]
fn both_fields_and_unknown_keys() {
    let section = table(vec![
        ("default-packers", strs(&["docker"])),
        ("files", strs(&["README.md", "LICENSE"])),
        ("other", Value::Bool(true)),
    ]);
    assert_eq!(decode_pack_config(&section), Ok(cfg(&["README.md", "LICENSE"], &["docker"])));
    let underscored = table(vec![("default_packers", strs(&["zip"]))]);
    assert_eq!(decode_pack_config(&underscored), Ok(cfg(&[], &["zip"])));
    let nulls = table(vec![("files", Value::Null), ("default-packers", Value::Null)]);
    assert_eq!(decode_pack_config(&nulls), Ok(cfg(&[], &[])));
}

#[test]
fn malformed_fields() {
    let bad_files = table(vec![("files", Value::Str(s("README.md")))]);
    assert_eq!(
        decode_pack_config(&bad_files),
        Err(PackError::MalformedSection(s("files"), s("array of strings")))
    );
    let bad_item = table(vec![("files", Value::Array(vec![Value::Str(s("a")), Value::Number(s("1"))]))]);
    assert_eq!(
        decode_pack_config(&bad_item),
        Err(PackError::MalformedSection(s("files"), s("array of strings")))
    );
    let bad_packers = table(vec![("default-packers", Value::Bool(false))]);
    assert_eq!(
        decode_pack_config(&bad_packers),
        Err(PackError::MalformedSection(s("default-packers"), s("array of strings")))
    );
    assert_eq!(
        decode_pack_config(&strs(&["a"])),
        Err(PackError::MalformedSection(s("pack"), s("table")))
    );
}

#[test]
fn cargo_pack_reads_files_of_selected_package() {
    let m = workspace(vec![
        ("a", table(vec![("pack", table(vec![("files", strs(&["x"]))]))])),
        ("b", table(vec![("pack", table(vec![("files", strs(&["y", "z"]))]))])),
    ]);
    let p = CargoPack::new(m, Some(s("b"))).unwrap();
    assert_eq!(p.files(), &[s("y"), s("z")][..]);
    assert_eq!(p.config(), &cfg(&["y", "z"], &[]));
    assert_eq!(p.package().unwrap().name, "b");
    assert_eq!(p.metadata().packages.len(), 2);
    assert_eq!(p.decode_from_manifest(), Ok(&table(vec![("files", strs(&["y", "z"]))])));
}

#[test]
fn cargo_pack_errors() {
    let two = || {
        workspace(vec![
            ("a", table(vec![("pack", table(vec![]))])),
            ("b", table(vec![])),
        ])
    };
    assert_eq!(CargoPack::new(two(), None).err(), Some(PackError::AmbiguousWorkspace));
    assert_eq!(CargoPack::new(two(), Some(s("c"))).err(), Some(PackError::UnknownPackage(s("c"))));
    assert_eq!(CargoPack::new(two(), Some(s("b"))).err(), Some(PackError::MissingSection));
    let p = CargoPack::new(two(), Some(s("a"))).unwrap();
    assert!(p.files().is_empty());
}
