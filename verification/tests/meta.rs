use clikeys::error::NsError;
use clikeys::meta::{prefix_meta, OptionMeta};
use clikeys::text::{is_blank, same_text, split_once, strip_prefix};
use clikeys::util::{strict_mul, strict_sub};

#[test]
fn an_entry_holds_its_four_parts() {
    let m = OptionMeta::with_default("backend.d_model", "u32", "model width", "64".to_string());
    assert_eq!(m.key, "backend.d_model");
    assert_eq!(m.ty, "u32");
    assert_eq!(m.help, "model width");
    assert_eq!(m.default, "64");
    let copy = m.clone();
    assert_eq!(copy.key, m.key);
    assert_eq!(copy.ty, m.ty);
    assert_eq!(copy.help, m.help);
    assert_eq!(copy.default, m.default);
}

#[test]
fn a_prefix_goes_before_every_key() {
    let listing = vec![
        OptionMeta::with_default("d_model", "u32", "h", "64".to_string()),
        OptionMeta::with_default("inner.x", "bool", "", "true".to_string()),
    ];
    let out = prefix_meta("backend", listing);
    assert_eq!(out.len(), 2);
    assert_eq!(out[0].key, "backend.d_model");
    assert_eq!(out[0].ty, "u32");
    assert_eq!(out[0].help, "h");
    assert_eq!(out[0].default, "64");
    assert_eq!(out[1].key, "backend.inner.x");
}

#[test]
fn an_empty_prefix_changes_nothing() {
    let listing = vec![OptionMeta::with_default("d_model", "u32", "", "64".to_string())];
    let out = prefix_meta("", listing);
    assert_eq!(out.len(), 1);
    assert_eq!(out[0].key, "d_model");
    assert!(prefix_meta("p", Vec::new()).is_empty());
}

#[test]
fn a_text_is_split_at_the_first_delimiter() {
    assert_eq!(split_once("retries=5", '='), Some(("retries", "5")));
    assert_eq!(split_once("a=b=c", '='), Some(("a", "b=c")));
    assert_eq!(split_once("=v", '='), Some(("", "v")));
    assert_eq!(split_once("k=", '='), Some(("k", "")));
    assert_eq!(split_once("=", '='), Some(("", "")));
    assert_eq!(split_once("retries", '='), None);
    assert_eq!(split_once("", '='), None);
    assert_eq!(split_once("backend.d_model", '.'), Some(("backend", "d_model")));
    assert_eq!(split_once("é=ü", '='), Some(("é", "ü")));
    assert_eq!(split_once("aéb", 'é'), Some(("a", "b")));
}

#[test]
fn texts_are_compared_and_stripped() {
    assert!(same_text("a", "a"));
    assert!(!same_text("a", "b"));
    assert!(!same_text("a", "ab"));
    assert!(is_blank(""));
    assert!(!is_blank(" "));
    assert_eq!(strip_prefix("target-cpu=native", "target-cpu="), Some("native"));
    assert_eq!(strip_prefix("target-cpu=", "target-cpu="), Some(""));
    assert_eq!(strip_prefix("target-cpu", "target-cpu="), None);
    assert_eq!(strip_prefix("xtarget-cpu=native", "target-cpu="), None);
    assert_eq!(strip_prefix("abc", ""), Some("abc"));
}

#[test]
fn errors_have_their_lines() {
    assert_eq!(NsError::UnknownKey("bogus".to_string()).message(), "unknown option: bogus");
    let e = NsError::ParseError {
        key: "retries".to_string(),
        value: "x".to_string(),
        msg: "invalid digit found in string".to_string(),
    };
    assert_eq!(e.message(), "invalid value for retries: x (invalid digit found in string)");
}

#[test]
fn sizes_are_multiplied_and_subtracted() {
    assert_eq!(strict_mul(6, 7, "product"), 42);
    assert_eq!(strict_mul(0, usize::MAX, "zero"), 0);
    assert_eq!(strict_mul(usize::MAX, 1, "one"), usize::MAX);
    assert_eq!(strict_sub(7, 6, "difference"), 1);
    assert_eq!(strict_sub(7, 7, "nothing"), 0);
}
