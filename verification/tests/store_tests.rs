use envflag::store::EnvStore;
use envflag::{EnvflagError, Validator};

fn make_store(pairs: &[(&str, &str)]) -> EnvStore {
    EnvStore::from_map(
        pairs
            .iter()
            .map(|(k, v)| ((*k).to_string(), (*v).to_string()))
            .collect(),
    )
}

#[test]
fn get_existing_key() {
    let store = make_store(&[("PORT", "3000")]);
    assert_eq!(store.get::<u16>("PORT", 8080), 3000);
}

#[test]
fn get_missing_key_returns_default() {
    let store = make_store(&[]);
    assert_eq!(store.get::<u16>("PORT", 8080), 8080);
}

#[test]
fn get_unparseable_returns_default() {
    let store = make_store(&[("PORT", "abc")]);
    assert_eq!(store.get::<u16>("PORT", 8080), 8080);
}

#[test]
fn get_bool_normalizes() {
    let store = make_store(&[("DEBUG", "yes"), ("VERBOSE", "0")]);
    assert!(store.get::<bool>("DEBUG", false));
    assert!(!store.get::<bool>("VERBOSE", true));
}

#[test]
fn get_string_existing() {
    let store = make_store(&[("HOST", "localhost")]);
    assert_eq!(store.get_string("HOST", "0.0.0.0"), "localhost");
}

#[test]
fn get_string_missing() {
    let store = make_store(&[]);
    assert_eq!(store.get_string("HOST", "0.0.0.0"), "0.0.0.0");
}

#[test]
fn lookup_parsed_existing() {
    let store = make_store(&[("PORT", "9090")]);
    assert_eq!(store.lookup_parsed::<u16>("PORT"), Some(9090));
}

#[test]
fn lookup_parsed_missing() {
    let store = make_store(&[]);
    assert_eq!(store.lookup_parsed::<u16>("PORT"), None);
}

#[test]
fn lookup_parsed_unparseable() {
    let store = make_store(&[("PORT", "xyz")]);
    assert_eq!(store.lookup_parsed::<u16>("PORT"), None);
}

#[test]
fn lookup_string_existing() {
    let store = make_store(&[("HOST", "localhost")]);
    assert_eq!(store.lookup_string("HOST"), Some("localhost".to_string()));
}

#[test]
fn lookup_string_missing() {
    let store = make_store(&[]);
    assert_eq!(store.lookup_string("HOST"), None);
}

#[test]
fn is_set_true() {
    let store = make_store(&[("A", "1")]);
    assert!(store.is_set("A"));
}

#[test]
fn is_set_false() {
    let store = make_store(&[]);
    assert!(!store.is_set("A"));
}

#[test]
fn entries_returns_all() {
    let store = make_store(&[("A", "1"), ("B", "2")]);
    let mut e = store.entries();
    e.sort();
    assert_eq!(
        e,
        vec![
            ("A".to_string(), "1".to_string()),
            ("B".to_string(), "2".to_string()),
        ]
    );
}

#[test]
fn key_default_existing() {
    let store = make_store(&[("PORT", "3000")]);
    let v: u16 = store.key("PORT").default(8080u16).get().unwrap();
    assert_eq!(v, 3000);
}

#[test]
fn key_default_missing() {
    let store = make_store(&[]);
    let v: u16 = store.key("PORT").default(8080u16).get().unwrap();
    assert_eq!(v, 8080);
}

#[test]
fn key_required_existing() {
    let store = make_store(&[("PORT", "3000")]);
    let v: u16 = store.key("PORT").required().unwrap();
    assert_eq!(v, 3000);
}

#[test]
fn key_required_missing() {
    let store = make_store(&[]);
    let err = store.key("PORT").required::<u16>().unwrap_err();
    assert!(matches!(err, EnvflagError::NotSet { .. }));
}

#[test]
fn key_validate_pass() {
    let store = make_store(&[("PORT", "8080")]);
    let v: u16 = store
        .key("PORT")
        .default(3000u16)
        .validate(Validator::Port)
        .get()
        .unwrap();
    assert_eq!(v, 8080);
}

#[test]
fn key_validate_fail() {
    let store = make_store(&[("PORT", "0")]);
    let err = store
        .key("PORT")
        .default(3000u16)
        .validate(Validator::Port)
        .get()
        .unwrap_err();
    assert!(matches!(err, EnvflagError::ValidationFailed { .. }));
}

#[test]
fn key_parse_fail() {
    let store = make_store(&[("PORT", "abc")]);
    let err = store.key("PORT").required::<u16>().unwrap_err();
    assert!(matches!(err, EnvflagError::ParseFailed { .. }));
}

#[test]
fn key_bool_normalization() {
    let store = make_store(&[("FLAG", "yes")]);
    let v: bool = store.key("FLAG").required().unwrap();
    assert!(v);
}

#[test]
fn single_prefix_auto() {
    let store = EnvStore::from_map_with_prefixes(
        vec![("APP_PORT".to_string(), "3000".to_string())],
        vec!["APP_".to_string()],
    );
    let v: u16 = store.key("PORT").default(8080u16).get().unwrap();
    assert_eq!(v, 3000);
}

#[test]
fn multi_prefix_explicit() {
    let store = EnvStore::from_map_with_prefixes(
        vec![
            ("APP_PORT".to_string(), "3000".to_string()),
            ("SVC_PORT".to_string(), "4000".to_string()),
        ],
        vec!["APP_".to_string(), "SVC_".to_string()],
    );
    let v: u16 = store
        .key("PORT")
        .with_prefix("SVC_")
        .default(8080u16)
        .get()
        .unwrap();
    assert_eq!(v, 4000);
}

#[test]
fn multi_prefix_ambiguous() {
    let store = EnvStore::from_map_with_prefixes(
        vec![("APP_PORT".to_string(), "3000".to_string())],
        vec!["APP_".to_string(), "SVC_".to_string()],
    );
    let err = store.key("PORT").default(8080u16).get().unwrap_err();
    assert!(matches!(err, EnvflagError::AmbiguousPrefix { .. }));
}
