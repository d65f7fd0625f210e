use heimdall::capability::{Capability, CapabilityInitError, MongoDB};

fn args(pairs: &[(&str, &str)]) -> Vec<(String, String)> {
    pairs.iter().map(|(k, v)| (k.to_string(), v.to_string())).collect()
}

#[test]
fn mongo_with_both_fields_builds() {
    let a = args(&[("connection_string", "mongodb://db:27017"), ("database", "app")]);
    match Capability::from_config("mongo", &a) {
        Ok(Capability::MongoDB(m)) => {
            assert_eq!(m.connection_string, "mongodb://db:27017");
            assert_eq!(m.database, "app");
        }
        Err(e) => panic!("unexpected error {:?}", e),
    }
}

#[test]
fn unknown_capability_is_named() {
    let a = args(&[]);
    match Capability::from_config("unknown_cap", &a) {
        Err(CapabilityInitError::UnknownCapability(n)) => assert_eq!(n, "unknown_cap"),
        _ => panic!("expected an unknown capability"),
    }
}

#[test]
fn missing_connection_string_is_reported_first() {
    let a = args(&[]);
    match MongoDB::from_args(&a) {
        Err(CapabilityInitError::MissingArg(cap, field)) => {
            assert_eq!(cap, "mongo");
            assert_eq!(field, "connection_string");
        }
        _ => panic!("expected a missing field"),
    }
}

#[test]
fn missing_database_is_reported() {
    let a = args(&[("connection_string", "mongodb://db")]);
    match Capability::from_config("mongo", &a) {
        Err(CapabilityInitError::MissingArg(cap, field)) => {
            assert_eq!(cap, "mongo");
            assert_eq!(field, "database");
        }
        _ => panic!("expected a missing field"),
    }
}

#[test]
fn first_of_repeated_fields_wins() {
    let a = args(&[
        ("database", "one"),
        ("connection_string", "c"),
        ("database", "two"),
    ]);
    match MongoDB::from_args(&a) {
        Ok(m) => assert_eq!(m.database, "one"),
        Err(e) => panic!("unexpected error {:?}", e),
    }
}
