use heimdall::disk::DiskStore;

#[test]
fn missing_binary_gives_no_module() {
    assert!(DiskStore::module_from_files(None, None, None).is_none());
}

#[test]
fn absent_side_files_mean_empty() {
    let m = DiskStore::module_from_files(Some(vec![0, 97, 115, 109]), None, None).unwrap();
    assert_eq!(m.binary, vec![0, 97, 115, 109]);
    assert!(m.variables.is_empty());
    assert!(m.capabilities.is_empty());
}

#[test]
fn side_files_are_parsed() {
    let vars = r#"[["B","2"],["A","1"]]"#.to_string();
    let caps = r#"{"zeta":{},"mongo":{"database":"d","connection_string":"c"}}"#.to_string();
    let m = DiskStore::module_from_files(Some(vec![1]), Some(vars), Some(caps)).unwrap();
    assert_eq!(
        m.variables,
        vec![("B".to_string(), "2".to_string()), ("A".to_string(), "1".to_string())]
    );
    assert_eq!(
        m.capabilities,
        vec![
            ("zeta".to_string(), vec![]),
            (
                "mongo".to_string(),
                vec![
                    ("database".to_string(), "d".to_string()),
                    ("connection_string".to_string(), "c".to_string())
                ]
            ),
        ]
    );
}

#[test]
fn malformed_side_file_gives_no_module() {
    assert!(DiskStore::module_from_files(Some(vec![1]), Some("{".to_string()), None).is_none());
    assert!(DiskStore::module_from_files(Some(vec![1]), None, Some("[1]".to_string())).is_none());
}

#[test]
fn disk_store_keeps_its_root() {
    let d = DiskStore::new("/var/modules".to_string());
    assert_eq!(d.dir, "/var/modules");
    assert_eq!(DiskStore::MODULE_FILE, "module.wasm");
    assert_eq!(DiskStore::VARIABLES_FILE, "env.json");
    assert_eq!(DiskStore::CAPABILITIES_FILE, "caps.json");
}

fn caps(entries: &[(&str, &[(&str, &str)])]) -> Vec<(String, Vec<(String, String)>)> {
    entries
        .iter()
        .map(|(n, a)| (n.to_string(), a.iter().map(|(k, v)| (k.to_string(), v.to_string())).collect()))
        .collect()
}

#[test]
fn side_file_texts_round_trip_in_order() {
    let vars = vec![("B".to_string(), "2".to_string()), ("A".to_string(), "1".to_string())];
    let vars_text = DiskStore::variables_text(&vars).unwrap();
    assert_eq!(vars_text, r#"[["B","2"],["A","1"]]"#);
    let c = caps(&[("zeta", &[]), ("mongo", &[("database", "d"), ("connection_string", "c")])]);
    let caps_text = DiskStore::capabilities_text(&c).unwrap();
    assert_eq!(caps_text, r#"{"zeta":{},"mongo":{"database":"d","connection_string":"c"}}"#);
    let m = DiskStore::module_from_files(Some(vec![1]), Some(vars_text), Some(caps_text)).unwrap();
    assert_eq!(m.variables, vars);
    assert_eq!(m.capabilities, c);
}

#[test]
fn repeated_names_have_no_capabilities_text() {
    assert!(DiskStore::capabilities_text(&caps(&[("mongo", &[]), ("mongo", &[])])).is_none());
    assert!(DiskStore::capabilities_text(&caps(&[("mongo", &[("database", "a"), ("database", "b")])])).is_none());
    assert_eq!(DiskStore::capabilities_text(&caps(&[])).unwrap(), "{}");
}
