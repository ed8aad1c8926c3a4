use clikeys::error::NsError;
use clikeys::namespace::{CliKeys, Config, Field};
use clikeys::overrides::{apply_option, apply_options, build_from_options};
use clikeys::value::LeafValue;

fn sample() -> Config {
    let backend = Config::new(vec![Field::leaf("d_model", "model width", LeafValue::U32(64))]);
    Config::new(vec![
        Field::leaf("retries", "", LeafValue::Usize(3)),
        Field::namespace("backend", backend),
    ])
}

fn strings(options: &[&str]) -> Vec<String> {
    options.iter().map(|s| s.to_string()).collect()
}

#[test]
fn end_to_end_example() {
    let cfg = build_from_options(sample(), &strings(&["retries=5", "backend.d_model=128"])).unwrap();
    assert!(matches!(cfg.value_of("retries"), Some(LeafValue::Usize(5))));
    assert!(matches!(cfg.value_of("backend.d_model"), Some(LeafValue::U32(128))));
}

#[test]
fn no_options_gives_the_defaults() {
    let cfg = build_from_options(sample(), &Vec::new()).unwrap();
    assert!(matches!(cfg.value_of("retries"), Some(LeafValue::Usize(3))));
    assert!(matches!(cfg.value_of("backend.d_model"), Some(LeafValue::U32(64))));
}

#[test]
fn scoped_mutation_leaves_siblings() {
    let mut cfg = sample();
    cfg.apply_kv("backend.d_model", "128").unwrap();
    assert!(matches!(cfg.value_of("retries"), Some(LeafValue::Usize(3))));
    assert!(matches!(cfg.value_of("backend.d_model"), Some(LeafValue::U32(128))));
}

#[test]
fn unknown_key_is_reported() {
    let mut cfg = sample();
    match cfg.apply_kv("bogus", "1") {
        Err(NsError::UnknownKey(k)) => assert_eq!(k, "bogus"),
        other => panic!("unexpected: {:?}", other),
    }
    assert!(matches!(cfg.value_of("retries"), Some(LeafValue::Usize(3))));
}

#[test]
fn unknown_namespace_keeps_earlier_options() {
    let mut cfg = sample();
    match apply_options(&mut cfg, &strings(&["retries=5", "unknown.thing=1", "retries=9"])) {
        Err(NsError::UnknownKey(k)) => assert_eq!(k, "unknown.thing"),
        other => panic!("unexpected: {:?}", other),
    }
    assert!(matches!(cfg.value_of("retries"), Some(LeafValue::Usize(5))));
    assert!(matches!(cfg.value_of("backend.d_model"), Some(LeafValue::U32(64))));
}

#[test]
fn unknown_thing_alone() {
    match build_from_options(sample(), &strings(&["unknown.thing=1"])) {
        Err(NsError::UnknownKey(k)) => assert_eq!(k, "unknown.thing"),
        other => panic!("unexpected: {:?}", other),
    }
}

#[test]
fn malformed_option() {
    match build_from_options(sample(), &strings(&["retries"])) {
        Err(NsError::ParseError { key, value, msg }) => {
            assert_eq!(key, "retries");
            assert_eq!(value, "");
            assert_eq!(msg, "expected KEY=VALUE");
        },
        other => panic!("unexpected: {:?}", other),
    }
}

#[test]
fn option_splits_at_the_first_equals() {
    let mut cfg = Config::new(vec![Field::leaf("name", "", LeafValue::Text(String::new()))]);
    apply_option(&mut cfg, "name=a=b").unwrap();
    match cfg.value_of("name") {
        Some(LeafValue::Text(s)) => assert_eq!(s, "a=b"),
        other => panic!("unexpected: {:?}", other),
    }
}

#[test]
fn empty_value_for_a_text_leaf() {
    let mut cfg = Config::new(vec![Field::leaf("name", "", LeafValue::Text("x".to_string()))]);
    apply_option(&mut cfg, "name=").unwrap();
    match cfg.value_of("name") {
        Some(LeafValue::Text(s)) => assert_eq!(s, ""),
        other => panic!("unexpected: {:?}", other),
    }
}

#[test]
fn parse_failure_carries_key_value_and_message() {
    let mut cfg = sample();
    match cfg.apply_kv("retries", "many") {
        Err(NsError::ParseError { key, value, msg }) => {
            assert_eq!(key, "retries");
            assert_eq!(value, "many");
            assert_eq!(msg, "many".parse::<usize>().unwrap_err().to_string());
            assert_eq!(msg, "invalid digit found in string");
        },
        other => panic!("unexpected: {:?}", other),
    }
    assert!(matches!(cfg.value_of("retries"), Some(LeafValue::Usize(3))));
}

#[test]
fn nested_failure_carries_the_full_key() {
    let mut cfg = sample();
    match cfg.apply_kv("backend.d_model", "-1") {
        Err(NsError::ParseError { key, value, .. }) => {
            assert_eq!(key, "backend.d_model");
            assert_eq!(value, "-1");
        },
        other => panic!("unexpected: {:?}", other),
    }
    match cfg.apply_kv("backend.bogus", "1") {
        Err(NsError::UnknownKey(k)) => assert_eq!(k, "backend.bogus"),
        other => panic!("unexpected: {:?}", other),
    }
    assert!(matches!(cfg.value_of("backend.d_model"), Some(LeafValue::U32(64))));
}

#[test]
fn leaf_key_must_match_exactly() {
    let mut cfg = sample();
    assert!(matches!(cfg.apply_kv("retrie", "1"), Err(NsError::UnknownKey(_))));
    assert!(matches!(cfg.apply_kv("retries.x", "1"), Err(NsError::UnknownKey(_))));
    assert!(matches!(cfg.apply_kv("backend", "1"), Err(NsError::UnknownKey(_))));
    assert!(matches!(cfg.apply_kv("backendx.d_model", "1"), Err(NsError::UnknownKey(_))));
}

#[test]
fn first_declared_field_wins_a_shared_key() {
    let mut cfg = Config::new(vec![
        Field::leaf("n", "", LeafValue::U32(1)),
        Field::leaf("n", "", LeafValue::U32(2)),
    ]);
    cfg.apply_kv("n", "7").unwrap();
    assert!(matches!(cfg.fields[0].answers_to("n"), true));
    match (&cfg.fields[0].slot, &cfg.fields[1].slot) {
        (
            clikeys::namespace::Slot::Leaf { value: first, .. },
            clikeys::namespace::Slot::Leaf { value: second, .. },
        ) => {
            assert!(matches!(first, LeafValue::U32(7)));
            assert!(matches!(second, LeafValue::U32(2)));
        },
        _ => panic!("leaves expected"),
    }
}

#[test]
fn skipped_field_takes_no_override_and_is_not_listed() {
    let mut cfg = Config::new(vec![
        Field::leaf("shown", "", LeafValue::Bool(false)),
        Field::leaf("hidden", "", LeafValue::Bool(false)).skipped(),
    ]);
    match cfg.apply_kv("hidden", "true") {
        Err(NsError::UnknownKey(k)) => assert_eq!(k, "hidden"),
        other => panic!("unexpected: {:?}", other),
    }
    let keys: Vec<String> = cfg.options_meta().into_iter().map(|m| m.key).collect();
    assert_eq!(keys, vec!["shown".to_string()]);
    assert!(cfg.value_of("hidden").is_none());
}

#[test]
fn the_listing_keeps_the_defaults_after_an_override() {
    let mut cfg = sample();
    cfg.apply_kv("retries", "9").unwrap();
    let metas = cfg.options_meta();
    assert_eq!(metas.len(), 2);
    assert_eq!(metas[0].key, "retries");
    assert_eq!(metas[0].ty, "usize");
    assert_eq!(metas[0].help, "");
    assert_eq!(metas[0].default, "3");
    assert_eq!(metas[1].key, "backend.d_model");
    assert_eq!(metas[1].ty, "u32");
    assert_eq!(metas[1].help, "model width");
    assert_eq!(metas[1].default, "64");
}

#[test]
fn a_value_is_read_as_the_type_of_the_default() {
    let mut cfg = Config::new(vec![
        Field::leaf("flag", "", LeafValue::Bool(false)),
        Field::leaf("delta", "", LeafValue::I64(0)),
    ]);
    cfg.apply_kv("flag", "true").unwrap();
    cfg.apply_kv("delta", "-12").unwrap();
    assert!(matches!(cfg.value_of("flag"), Some(LeafValue::Bool(true))));
    assert!(matches!(cfg.value_of("delta"), Some(LeafValue::I64(-12))));
    assert!(matches!(cfg.apply_kv("flag", "1"), Err(NsError::ParseError { .. })));
}

#[test]
fn a_namespace_prefix_may_hold_dots() {
    let inner = Config::new(vec![Field::leaf("c", "", LeafValue::U32(1))]);
    let mut cfg = Config::new(vec![Field::namespace("a.b", inner)]);
    let keys: Vec<String> = cfg.options_meta().into_iter().map(|m| m.key).collect();
    assert_eq!(keys, vec!["a.b.c"]);
    cfg.apply_kv("a.b.c", "7").unwrap();
    assert!(matches!(cfg.value_of("a.b.c"), Some(LeafValue::U32(7))));
    assert!(matches!(cfg.apply_kv("a.c", "7"), Err(NsError::UnknownKey(_))));
    assert!(matches!(cfg.apply_kv("a.b", "7"), Err(NsError::UnknownKey(_))));
    assert!(matches!(cfg.apply_kv("a.bc", "7"), Err(NsError::UnknownKey(_))));
    assert!(matches!(cfg.apply_kv("a.b.", "7"), Err(NsError::UnknownKey(_))));
}

#[test]
fn every_listed_key_takes_an_override() {
    let deep = Config::new(vec![Field::leaf("x", "", LeafValue::I32(0))]);
    let mid = Config::new(vec![
        Field::leaf("n", "", LeafValue::U32(1)),
        Field::namespace("deep.er", deep),
    ]);
    let mut cfg = Config::new(vec![
        Field::leaf("retries", "", LeafValue::Usize(3)),
        Field::namespace("backend", mid),
    ]);
    let keys: Vec<String> = cfg.options_meta().into_iter().map(|m| m.key).collect();
    assert_eq!(keys, vec!["retries", "backend.n", "backend.deep.er.x"]);
    for key in keys.iter() {
        cfg.apply_kv(key, "5").unwrap();
    }
    assert!(matches!(cfg.value_of("retries"), Some(LeafValue::Usize(5))));
    assert!(matches!(cfg.value_of("backend.n"), Some(LeafValue::U32(5))));
    assert!(matches!(cfg.value_of("backend.deep.er.x"), Some(LeafValue::I32(5))));
}

#[test]
fn the_first_namespace_that_a_key_enters_takes_it() {
    let first = Config::new(vec![Field::leaf("b.c", "", LeafValue::U32(1))]);
    let second = Config::new(vec![Field::leaf("c", "", LeafValue::U32(2))]);
    let mut cfg =
        Config::new(vec![Field::namespace("a", first), Field::namespace("a.b", second)]);
    cfg.apply_kv("a.b.c", "9").unwrap();
    match (&cfg.fields[0].slot, &cfg.fields[1].slot) {
        (clikeys::namespace::Slot::Nested(one), clikeys::namespace::Slot::Nested(other)) => {
            assert!(matches!(one.value_of("b.c"), Some(LeafValue::U32(9))));
            assert!(matches!(other.value_of("c"), Some(LeafValue::U32(2))));
        },
        _ => panic!("namespaces expected"),
    }
}
