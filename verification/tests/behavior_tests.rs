use envflag::store::EnvStore;
use envflag::validators::{
    is_bool, is_integer, is_integer_in_range, is_non_empty, is_port, is_positive_integer, is_url,
    normalize_bool, try_matches_regex,
};
use envflag::{EnvflagError, InitBuilder, Validator};

fn store_of(pairs: &[(&str, &str)]) -> EnvStore {
    EnvStore::from_map(
        pairs
            .iter()
            .map(|(k, v)| ((*k).to_string(), (*v).to_string()))
            .collect(),
    )
}

// --- boolean normalization -------------------------------------------------

#[test]
fn normalize_bool_true_spellings() {
    for s in ["true", "True", "TRUE", "1", "yes", "Yes", "YES"] {
        assert_eq!(normalize_bool(s), "true");
    }
}

#[test]
fn normalize_bool_false_spellings() {
    for s in ["false", "False", "FALSE", "0", "no", "No", "NO"] {
        assert_eq!(normalize_bool(s), "false");
    }
}

#[test]
fn normalize_bool_passthrough() {
    for s in ["maybe", "2", "on", "off", "", "  ", "truth"] {
        assert_eq!(normalize_bool(s), s);
    }
}

#[test]
fn normalize_bool_trims_before_matching() {
    assert_eq!(normalize_bool("  yes \t"), "true");
    assert_eq!(normalize_bool("\nNO "), "false");
}

#[test]
fn normalize_bool_idempotent_samples() {
    for s in ["true", "Yes", "0", "maybe", " TRUE ", "", "no"] {
        let once = normalize_bool(s);
        let twice = normalize_bool(&once);
        assert_eq!(twice, once);
    }
}

#[test]
fn get_bool_is_permissive_and_total() {
    let store = store_of(&[
        ("A", "true"),
        ("B", "TRUE"),
        ("C", "1"),
        ("D", "Yes"),
        ("E", "false"),
        ("F", "0"),
        ("G", "anything"),
        ("H", ""),
    ]);
    assert!(store.get_bool("A"));
    assert!(store.get_bool("B"));
    assert!(store.get_bool("C"));
    assert!(store.get_bool("D"));
    assert!(!store.get_bool("E"));
    assert!(!store.get_bool("F"));
    assert!(!store.get_bool("G"));
    assert!(!store.get_bool("H"));
    assert!(!store.get_bool("MISSING"));
}

// --- round trips -----------------------------------------------------------

#[test]
fn roundtrip_unsigned_types() {
    for v in [0u64, 1, 9, 10, 4242, u64::MAX] {
        let store = store_of(&[("K", &v.to_string())]);
        assert_eq!(store.key("K").default(7u64).get(), Ok(v));
    }
    for v in [0u16, 3000, u16::MAX] {
        let store = store_of(&[("K", &v.to_string())]);
        assert_eq!(store.key("K").default(7u16).get(), Ok(v));
    }
    for v in [0u8, 255] {
        let store = store_of(&[("K", &v.to_string())]);
        assert_eq!(store.key("K").default(7u8).get(), Ok(v));
    }
    for v in [0u32, u32::MAX] {
        let store = store_of(&[("K", &v.to_string())]);
        assert_eq!(store.key("K").default(7u32).get(), Ok(v));
    }
}

#[test]
fn roundtrip_signed_types() {
    for v in [i64::MIN, -1, 0, 1, i64::MAX] {
        let store = store_of(&[("K", &v.to_string())]);
        assert_eq!(store.key("K").default(7i64).get(), Ok(v));
    }
    for v in [i32::MIN, -42, i32::MAX] {
        let store = store_of(&[("K", &v.to_string())]);
        assert_eq!(store.key("K").default(7i32).get(), Ok(v));
    }
    for v in [i16::MIN, i16::MAX] {
        let store = store_of(&[("K", &v.to_string())]);
        assert_eq!(store.key("K").default(7i16).get(), Ok(v));
    }
    for v in [i8::MIN, i8::MAX] {
        let store = store_of(&[("K", &v.to_string())]);
        assert_eq!(store.key("K").default(7i8).get(), Ok(v));
    }
}

#[test]
fn roundtrip_string_and_bool() {
    let store = store_of(&[("S", "hello world"), ("B", "false")]);
    assert_eq!(
        store.key("S").default("x".to_string()).get(),
        Ok("hello world".to_string())
    );
    assert_eq!(store.key("B").default(true).get(), Ok(false));
}

// --- parse edge cases ------------------------------------------------------

#[test]
fn parse_accepts_plus_sign_and_leading_zeros() {
    let store = store_of(&[("A", "+123"), ("B", "007"), ("C", "-0")]);
    assert_eq!(store.key("A").default(0u32).get(), Ok(123));
    assert_eq!(store.key("B").default(0u32).get(), Ok(7));
    assert_eq!(store.key("C").default(1i64).get(), Ok(0));
}

#[test]
fn parse_rejects_malformed_numbers() {
    for raw in ["", " 42", "42 ", "4 2", "--1", "+-1", "+", "-", "1.5", "0x10"] {
        let store = store_of(&[("K", raw)]);
        let err = store.key("K").required::<i64>().unwrap_err();
        assert!(matches!(err, EnvflagError::ParseFailed { .. }));
    }
}

#[test]
fn parse_rejects_out_of_range() {
    let store = store_of(&[("K", "70000")]);
    let err = store.key("K").required::<u16>().unwrap_err();
    assert!(matches!(err, EnvflagError::ParseFailed { .. }));
    let store = store_of(&[("K", "18446744073709551616")]);
    assert_eq!(store.lookup_parsed::<u64>("K"), None);
    let store = store_of(&[("K", "-9223372036854775809")]);
    assert_eq!(store.lookup_parsed::<i64>("K"), None);
    let store = store_of(&[("K", "-1")]);
    assert_eq!(store.lookup_parsed::<u64>("K"), None);
}

// --- exact error contents --------------------------------------------------

#[test]
fn parse_failed_carries_key_and_value() {
    let store = store_of(&[("PORT", "abc")]);
    let err = store.key("PORT").default(8080u16).get().unwrap_err();
    match err {
        EnvflagError::ParseFailed { key, value } => {
            assert_eq!(key, "PORT");
            assert_eq!(value, "abc");
        }
        other => panic!("expected ParseFailed, got {:?}", other),
    }
}

#[test]
fn validation_failed_carries_key_and_value() {
    let store = store_of(&[("PORT", "0")]);
    let err = store
        .key("PORT")
        .default(3000u16)
        .validate(Validator::Port)
        .get()
        .unwrap_err();
    match err {
        EnvflagError::ValidationFailed { key, value } => {
            assert_eq!(key, "PORT");
            assert_eq!(value, "0");
        }
        other => panic!("expected ValidationFailed, got {:?}", other),
    }
}

#[test]
fn not_set_carries_key() {
    let store = store_of(&[]);
    let err = store.key("DATABASE_URL").required::<String>().unwrap_err();
    match err {
        EnvflagError::NotSet { key } => assert_eq!(key, "DATABASE_URL"),
        other => panic!("expected NotSet, got {:?}", other),
    }
}

#[test]
fn ambiguous_prefix_carries_key() {
    let store = EnvStore::from_map_with_prefixes(
        vec![("APP_PORT".to_string(), "1".to_string())],
        vec!["APP_".to_string(), "SVC_".to_string()],
    );
    let err = store.key("PORT").required::<u16>().unwrap_err();
    match err {
        EnvflagError::AmbiguousPrefix { key } => assert_eq!(key, "PORT"),
        other => panic!("expected AmbiguousPrefix, got {:?}", other),
    }
}

// --- lookup semantics ------------------------------------------------------

#[test]
fn lookup_no_prefixes_is_identity() {
    let store = store_of(&[("PORT", "3000")]);
    assert_eq!(store.lookup("PORT", None), Some("3000".to_string()));
    assert_eq!(store.lookup("PORT", Some("APP_")), Some("3000".to_string()));
    assert_eq!(store.lookup("MISSING", None), None);
}

#[test]
fn lookup_single_prefix_prepends() {
    let store = EnvStore::from_map_with_prefixes(
        vec![("APP_PORT".to_string(), "3000".to_string())],
        vec!["APP_".to_string()],
    );
    assert_eq!(store.lookup("PORT", None), Some("3000".to_string()));
    assert_eq!(store.lookup("APP_PORT", None), None);
}

#[test]
fn lookup_multi_prefix_needs_choice() {
    let store = EnvStore::from_map_with_prefixes(
        vec![
            ("APP_PORT".to_string(), "3000".to_string()),
            ("SVC_PORT".to_string(), "4000".to_string()),
        ],
        vec!["APP_".to_string(), "SVC_".to_string()],
    );
    assert_eq!(store.lookup("PORT", None), None);
    assert_eq!(store.lookup("PORT", Some("APP_")), Some("3000".to_string()));
    assert_eq!(store.lookup("PORT", Some("SVC_")), Some("4000".to_string()));
}

#[test]
fn convenience_get_falls_back_under_ambiguity() {
    let store = EnvStore::from_map_with_prefixes(
        vec![
            ("APP_PORT".to_string(), "3000".to_string()),
            ("SVC_PORT".to_string(), "4000".to_string()),
        ],
        vec!["APP_".to_string(), "SVC_".to_string()],
    );
    assert_eq!(store.get::<u16>("PORT", 8080), 8080);
    assert_eq!(store.lookup_parsed::<u16>("PORT"), None);
}

// --- store construction ----------------------------------------------------

#[test]
fn from_map_last_writer_wins() {
    let store = EnvStore::from_map(vec![
        ("K".to_string(), "first".to_string()),
        ("OTHER".to_string(), "x".to_string()),
        ("K".to_string(), "second".to_string()),
    ]);
    assert_eq!(store.lookup_string("K"), Some("second".to_string()));
    assert_eq!(store.entries().len(), 2);
}

#[test]
fn from_snapshot_filters_by_prefix() {
    let store = EnvStore::from_snapshot(
        vec![
            ("APP_PORT".to_string(), "3000".to_string()),
            ("HOME".to_string(), "/root".to_string()),
            ("SVC_HOST".to_string(), "svc".to_string()),
        ],
        vec!["APP_".to_string(), "SVC_".to_string()],
    );
    let mut keys: Vec<String> = store.entries().into_iter().map(|(k, _)| k).collect();
    keys.sort();
    assert_eq!(keys, vec!["APP_PORT".to_string(), "SVC_HOST".to_string()]);
    assert_eq!(store.lookup("HOME", None), None);
}

#[test]
fn from_snapshot_without_prefixes_is_verbatim() {
    let store = EnvStore::from_snapshot(
        vec![("HOME".to_string(), "/root".to_string())],
        Vec::new(),
    );
    assert_eq!(store.lookup_string("HOME"), Some("/root".to_string()));
}

#[test]
fn init_builder_collects_settings_and_builds() {
    let b = InitBuilder::new();
    assert!(b.source_path().is_none());
    let b = b.path(".env.test").prefix("APP_");
    assert_eq!(b.source_path().as_deref(), Some(".env.test"));
    let store = b.build(vec![
        ("APP_PORT".to_string(), "3000".to_string()),
        ("HOME".to_string(), "/root".to_string()),
    ]);
    assert_eq!(store.prefixes().len(), 1);
    assert_eq!(store.get::<u16>("PORT", 1), 3000);
    assert!(!store.is_set("HOME"));
}

// --- validators ------------------------------------------------------------

#[test]
fn validator_non_empty() {
    assert!(is_non_empty("x"));
    assert!(is_non_empty(" x "));
    assert!(!is_non_empty(""));
    assert!(!is_non_empty("   \t\n"));
}

#[test]
fn validator_integer() {
    assert!(is_integer("42"));
    assert!(is_integer("-42"));
    assert!(is_integer(" 42 "));
    assert!(!is_integer("abc"));
    assert!(!is_integer("4.2"));
    assert!(!is_integer(""));
}

#[test]
fn validator_positive_integer() {
    assert!(is_positive_integer("1"));
    assert!(is_positive_integer("42"));
    assert!(!is_positive_integer("0"));
    assert!(!is_positive_integer("-1"));
    assert!(!is_positive_integer("x"));
}

#[test]
fn validator_bool_spellings() {
    for s in ["true", "TRUE", "1", "yes", "false", "0", "No"] {
        assert!(is_bool(s));
    }
    for s in ["2", "on", "", "truthy"] {
        assert!(!is_bool(s));
    }
}

#[test]
fn validator_port() {
    assert!(is_port("1"));
    assert!(is_port("8080"));
    assert!(is_port("65535"));
    assert!(!is_port("0"));
    assert!(!is_port("65536"));
    assert!(!is_port("-1"));
    assert!(!is_port("x"));
}

#[test]
fn validator_url() {
    assert!(is_url("https://example.com"));
    assert!(is_url("postgres://db:5432"));
    assert!(!is_url("example.com"));
    assert!(!is_url(":/"));
}

#[test]
fn validator_integer_in_range() {
    let v = is_integer_in_range(1, 65535);
    assert!(v.run("8080"));
    assert!(!v.run("70000"));
    assert!(!v.run("0"));
    assert!(!v.run("abc"));
}

#[test]
fn validator_regex() {
    let v = try_matches_regex("^[0-9]+$").unwrap();
    assert!(v.run("123"));
    assert!(!v.run("12a"));
    assert!(!v.run(""));
    assert!(try_matches_regex("(").is_none());
}

#[test]
fn validator_regex_in_query() {
    let store = store_of(&[("ID", "abc-123")]);
    let v = try_matches_regex("^[a-z]+-[0-9]+$").unwrap();
    let got: String = store
        .key("ID")
        .default("none".to_string())
        .validate(v.clone())
        .get()
        .unwrap();
    assert_eq!(got, "abc-123");
    let store2 = store_of(&[("ID", "nope")]);
    let err = store2
        .key("ID")
        .default("none".to_string())
        .validate(v)
        .get()
        .unwrap_err();
    assert!(matches!(err, EnvflagError::ValidationFailed { .. }));
}

#[test]
fn validators_run_in_order_and_short_circuit() {
    let store = store_of(&[("PORT", "0")]);
    let err = store
        .key("PORT")
        .default(1u16)
        .validate(Validator::Integer)
        .validate(Validator::Port)
        .get()
        .unwrap_err();
    assert!(matches!(err, EnvflagError::ValidationFailed { .. }));
}

#[test]
fn validators_see_normalized_booleans() {
    let store = store_of(&[("FLAG", "YES")]);
    let v: bool = store
        .key("FLAG")
        .default(false)
        .validate(Validator::BoolSpelling)
        .get()
        .unwrap();
    assert!(v);
}

#[test]
fn default_skips_validators_and_parsing() {
    let store = store_of(&[]);
    let v: u16 = store
        .key("PORT")
        .default(0u16)
        .validate(Validator::Port)
        .get()
        .unwrap();
    assert_eq!(v, 0);
}
