use heimdall::compile::compile;
use heimdall::registry::{environment_of, Registry};
use heimdall::store::StoredModule;
use heimdall::runtime::{resolve_for_exec, ExecutionResult};
use heimdall::store::{MemoryStore, Store};

const EMPTY_MODULE: &[u8] = b"\0asm\x01\0\0\0";

fn vars(pairs: &[(&str, &str)]) -> Vec<(String, String)> {
    pairs.iter().map(|(k, v)| (k.to_string(), v.to_string())).collect()
}

fn caps(entries: &[(&str, &[(&str, &str)])]) -> Vec<(String, Vec<(String, String)>)> {
    entries.iter().map(|(n, a)| (n.to_string(), vars(a))).collect()
}

#[test]
fn memory_store_never_overwrites() {
    let mut s = MemoryStore::new();
    assert!(s.store("m", vec![1, 2, 3]));
    assert!(!s.store("m", vec![4, 5]));
    assert_eq!(s.retrieve("m").unwrap().binary, vec![1, 2, 3]);
}

#[test]
fn memory_store_attach_and_delete() {
    let mut s = MemoryStore::new();
    assert!(!s.attach_variables("m", &vars(&[("A", "1")])));
    assert!(s.store("m", vec![7]));
    assert!(s.attach_variables("m", &vars(&[("A", "1")])));
    assert!(s.attach_capabilities("m", &caps(&[("mongo", &[("database", "d")])])));
    let got = s.retrieve("m").unwrap();
    assert_eq!(got.binary, vec![7]);
    assert_eq!(got.variables, vars(&[("A", "1")]));
    assert_eq!(got.capabilities, caps(&[("mongo", &[("database", "d")])]));
    assert!(s.delete("m"));
    assert!(s.retrieve("m").is_none());
    assert!(!s.delete("m"));
}

#[test]
fn registry_add_does_not_overwrite() {
    let mut r = Registry::new(MemoryStore::new(), 10);
    assert!(r.add("m", EMPTY_MODULE.to_vec()));
    assert!(!r.add("m", b"other".to_vec()));
    assert_eq!(r.store().retrieve("m").unwrap().binary, EMPTY_MODULE.to_vec());
    assert!(r.resolve("m").is_some());
}

#[test]
fn resolve_serves_variables_attached_after_caching() {
    let mut r = Registry::new(MemoryStore::new(), 10);
    assert!(r.add("m", EMPTY_MODULE.to_vec()));
    let first = r.resolve("m").unwrap();
    assert!(first.variables.is_empty());
    let v = vars(&[("GREETING", "hello"), ("TARGET", "world")]);
    assert!(r.attach_variables("m", &v));
    let second = r.resolve("m").unwrap();
    assert_eq!(second.variables, v);
}

#[test]
fn unknown_capability_is_not_attached() {
    let mut r = Registry::new(MemoryStore::new(), 10);
    assert!(r.add("m", EMPTY_MODULE.to_vec()));
    assert!(r.attach_capabilities("m", &caps(&[("mongo", &[("connection_string", "c"), ("database", "d")])])));
    let before = r.store().retrieve("m").unwrap().capabilities;
    assert!(!r.attach_capabilities("m", &caps(&[("unknown_cap", &[])])));
    assert_eq!(r.store().retrieve("m").unwrap().capabilities, before);
    let env = r.resolve("m").unwrap();
    assert_eq!(env.capabilities.len(), 1);
}

#[test]
fn unknown_capability_leaves_fresh_module_bare() {
    let mut r = Registry::new(MemoryStore::new(), 10);
    assert!(r.add("m", EMPTY_MODULE.to_vec()));
    assert!(!r.attach_capabilities("m", &caps(&[("unknown_cap", &[])])));
    assert!(r.store().retrieve("m").unwrap().capabilities.is_empty());
    let env = r.resolve("m").unwrap();
    assert!(env.capabilities.is_empty());
}

#[test]
fn valid_capabilities_reach_the_environment() {
    let mut r = Registry::new(MemoryStore::new(), 10);
    assert!(r.add("m", EMPTY_MODULE.to_vec()));
    let c = caps(&[("mongo", &[("connection_string", "mongodb://h"), ("database", "d")])]);
    assert!(r.attach_capabilities("m", &c));
    let env = r.resolve("m").unwrap();
    assert_eq!(env.capabilities.len(), 1);
}

#[test]
fn never_stored_module_is_a_resolution_error() {
    let mut r = Registry::new(MemoryStore::new(), 10);
    assert!(r.resolve("missing").is_none());
    match resolve_for_exec(&mut r, "missing") {
        Err(e) => assert_eq!(e, ExecutionResult::ModuleResolutionError),
        Ok(_) => panic!("expected a resolution error"),
    }
}

#[test]
fn deleted_module_no_longer_resolves() {
    let mut r = Registry::new(MemoryStore::new(), 10);
    assert!(r.add("m", EMPTY_MODULE.to_vec()));
    assert!(r.resolve("m").is_some());
    assert!(r.delete("m"));
    assert!(r.resolve("m").is_none());
    assert!(matches!(
        resolve_for_exec(&mut r, "m"),
        Err(ExecutionResult::ModuleResolutionError)
    ));
}

#[test]
fn malformed_binary_does_not_resolve() {
    let mut r = Registry::new(MemoryStore::new(), 10);
    assert!(r.add("m", b"not a module".to_vec()));
    assert!(r.resolve("m").is_none());
}

fn module(binary: &[u8], variables: Vec<(String, String)>, capabilities: Vec<(String, Vec<(String, String)>)>) -> StoredModule {
    StoredModule { binary: binary.to_vec(), variables, capabilities }
}

#[test]
fn environment_of_builds_from_the_module() {
    let v = vars(&[("K", "V")]);
    let c = caps(&[("mongo", &[("connection_string", "mongodb://h"), ("database", "d")])]);
    let compiled = compile(&EMPTY_MODULE.to_vec());
    assert!(compiled.is_some());
    let env = environment_of(module(EMPTY_MODULE, v.clone(), c), compiled).unwrap();
    assert_eq!(env.variables, v);
    assert_eq!(env.capabilities.len(), 1);
}

#[test]
fn environment_of_needs_compiled_code_and_valid_capabilities() {
    assert!(compile(&b"not a module".to_vec()).is_none());
    assert!(environment_of(module(b"not a module", vec![], vec![]), None).is_none());
    let bad = caps(&[("mongo", &[("database", "d")])]);
    assert!(environment_of(module(EMPTY_MODULE, vec![], bad), compile(&EMPTY_MODULE.to_vec())).is_none());
}

#[test]
fn memory_store_calls_succeed_when_allowed() {
    let mut s = MemoryStore::new();
    assert!(s.store("a", vec![1]));
    assert!(s.store("b", vec![2]));
    assert!(s.attach_capabilities("b", &caps(&[])));
    assert!(s.delete("a"));
    assert!(s.retrieve("a").is_none());
    assert_eq!(s.retrieve("b").unwrap().binary, vec![2]);
}

#[test]
fn repeated_capability_names_are_not_attached() {
    let mut r = Registry::new(MemoryStore::new(), 10);
    assert!(r.add("m", EMPTY_MODULE.to_vec()));
    let entry: &[(&str, &str)] = &[("connection_string", "c"), ("database", "d")];
    assert!(!r.attach_capabilities("m", &caps(&[("mongo", entry), ("mongo", entry)])));
    assert!(r.store().retrieve("m").unwrap().capabilities.is_empty());
}

#[test]
fn lookup_then_install_resolves_outside_a_lock() {
    let mut r = Registry::new(MemoryStore::new(), 10);
    assert!(r.add("m", EMPTY_MODULE.to_vec()));
    assert!(r.lookup("m").is_none());
    let stored = r.store().retrieve("m").unwrap();
    let env = r.install("m", &stored.binary, compile(&stored.binary)).unwrap();
    assert!(env.variables.is_empty());
    assert!(r.install("m", &b"changed".to_vec(), compile(&stored.binary)).is_none());
    assert!(r.install("m", &stored.binary, None).is_none());
    assert!(r.install("missing", &stored.binary, compile(&stored.binary)).is_none());
}

#[test]
fn resolution_outcome_maps_nothing_to_the_resolution_error() {
    assert!(matches!(
        heimdall::runtime::resolution_outcome(None),
        Err(ExecutionResult::ModuleResolutionError)
    ));
}
