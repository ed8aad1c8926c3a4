use clikeys::grouping::{place_entry, place_name, sorted_by_key};
use clikeys::help::{first_segment, format_options_help, pad, render_entry, render_help, Group};
use clikeys::meta::OptionMeta;
use clikeys::namespace::{CliKeys, Config, Field};
use clikeys::order::comes_no_later;
use clikeys::value::LeafValue;

fn meta(key: &str, ty: &str, help: &str, default: &str) -> OptionMeta {
    OptionMeta::with_default(key, ty, help, default.to_string())
}

const HEADER: &str = "Options (set with -o/--option KEY=VALUE; repeatable):";

#[test]
fn an_empty_listing_is_the_header() {
    assert_eq!(format_options_help(&[]), HEADER);
}

#[test]
fn one_entry_exactly() {
    let text = format_options_help(&[meta("retries", "usize", "", "3")]);
    let expected = "Options (set with -o/--option KEY=VALUE; repeatable):\n\
                    \n\
                    retries.*\n  \
                    retries                       default = 3           (usize)";
    assert_eq!(text, expected);
    assert_eq!(
        text,
        format!(
            "Options (set with -o/--option KEY=VALUE; repeatable):\n\nretries.*\n  {:<28}  default = {:<10}  (usize)",
            "retries", "3"
        )
    );
}

#[test]
fn an_entry_without_help_ends_with_its_type() {
    let without = render_entry(&meta("retries", "usize", "", "3"));
    assert_eq!(without, "  retries                       default = 3           (usize)");
    assert!(without.ends_with(')'));
    let with = render_entry(&meta("retries", "usize", "how often", "3"));
    assert_eq!(with, "  retries                       default = 3           (usize) how often");
    let blank = render_entry(&meta("retries", "usize", " ", "3"));
    assert_eq!(blank, "  retries                       default = 3           (usize)  ");
}

#[test]
fn the_line_of_an_entry_has_fixed_widths() {
    let line = render_entry(&meta("backend.d_model", "u32", "model width", "64"));
    assert_eq!(line, "  backend.d_model               default = 64          (u32) model width");
    assert_eq!(
        line,
        format!("  {:<28}  default = {:<10}  ({}) {}", "backend.d_model", "64", "u32", "model width")
    );
}

#[test]
fn long_keys_and_defaults_are_not_cut() {
    let key = "namespace.a_key_that_is_longer_than_the_column";
    let default = "a default of some length";
    let line = render_entry(&meta(key, "String", "", default));
    assert_eq!(line, format!("  {:<28}  default = {:<10}  ({})", key, default, "String"));
    assert_eq!(line, format!("  {}  default = {}  (String)", key, default));
}

#[test]
fn padding_counts_characters() {
    assert_eq!(pad("ab", 5), "ab   ");
    assert_eq!(pad("abcde", 5), "abcde");
    assert_eq!(pad("abcdef", 5), "abcdef");
    assert_eq!(pad("", 2), "  ");
    assert_eq!(pad("é", 3), "é  ");
    assert_eq!(pad("é", 3), format!("{:<3}", "é"));
}

#[test]
fn groups_and_entries_are_ascending() {
    let listing = vec![
        meta("zeta.b", "u32", "", "2"),
        meta("alpha.y", "bool", "second", "true"),
        meta("zeta.a", "u32", "", "1"),
        meta("alpha.x", "bool", "first", "false"),
    ];
    let text = format_options_help(&listing);
    let alpha = text.find("alpha.*").unwrap();
    let zeta = text.find("zeta.*").unwrap();
    assert!(alpha < zeta);
    let lines: Vec<&str> = text.split('\n').collect();
    assert_eq!(lines.len(), 9);
    assert_eq!(lines[0], HEADER);
    assert_eq!(lines[1], "");
    assert_eq!(lines[2], "alpha.*");
    assert!(lines[3].starts_with("  alpha.x "));
    assert!(lines[3].ends_with("(bool) first"));
    assert!(lines[4].starts_with("  alpha.y "));
    assert_eq!(lines[5], "");
    assert_eq!(lines[6], "zeta.*");
    assert!(lines[7].starts_with("  zeta.a "));
    assert!(lines[8].starts_with("  zeta.b "));
}

#[test]
fn the_text_is_the_same_on_every_run() {
    let listing = vec![
        meta("m.k", "u32", "", "2"),
        meta("b", "bool", "", "true"),
        meta("a.z", "u32", "", "1"),
        meta("q.x", "bool", "", "false"),
        meta("c.d.e", "i64", "deep", "-1"),
        meta("a.a", "u32", "", "1"),
    ];
    let first = format_options_help(&listing);
    for _ in 0..20 {
        assert_eq!(format_options_help(&listing), first);
    }
    let names: Vec<&str> = first.split('\n').filter(|l| l.ends_with(".*")).collect();
    assert_eq!(names, vec!["a.*", "b.*", "c.*", "m.*", "q.*"]);
}

#[test]
fn a_key_without_a_dot_is_its_own_group() {
    let text = format_options_help(&[meta("retries", "usize", "", "3"), meta("r", "u32", "", "1")]);
    let names: Vec<&str> = text.split('\n').filter(|l| l.ends_with(".*")).collect();
    assert_eq!(names, vec!["r.*", "retries.*"]);
}

#[test]
fn entries_with_one_key_keep_their_order() {
    let listing = vec![meta("g.k", "u32", "second", "2"), meta("g.k", "u32", "first", "1")];
    let text = format_options_help(&listing);
    let lines: Vec<&str> = text.split('\n').collect();
    assert!(lines[3].ends_with("second"));
    assert!(lines[4].ends_with("first"));
}

#[test]
fn the_first_segment_ends_at_the_first_dot() {
    assert_eq!(first_segment("backend.d_model"), "backend");
    assert_eq!(first_segment("a.b.c"), "a");
    assert_eq!(first_segment("retries"), "retries");
    assert_eq!(first_segment(".x"), "");
    assert_eq!(first_segment(""), "");
}

#[test]
fn groups_in_any_order_give_one_text() {
    let listing =
        vec![meta("b.x", "u32", "", "1"), meta("a.y", "u32", "", "2"), meta("b.w", "u32", "", "3")];
    let a = Group { name: "a".to_string(), members: vec![listing[1].clone()] };
    let b = Group { name: "b".to_string(), members: vec![listing[0].clone(), listing[2].clone()] };
    let a2 = Group { name: "a".to_string(), members: vec![listing[1].clone()] };
    let b2 = Group { name: "b".to_string(), members: vec![listing[0].clone(), listing[2].clone()] };
    let one = render_help(&listing, &vec![a, b]);
    let other = render_help(&listing, &vec![b2, a2]);
    assert_eq!(one, other);
    assert_eq!(one, format_options_help(&listing));
}

#[test]
fn texts_are_ordered_by_code_point() {
    assert!(comes_no_later("", ""));
    assert!(comes_no_later("", "a"));
    assert!(!comes_no_later("a", ""));
    assert!(comes_no_later("a", "a"));
    assert!(comes_no_later("a", "ab"));
    assert!(!comes_no_later("ab", "a"));
    assert!(comes_no_later("Z", "a"));
    assert!(!comes_no_later("b", "a"));
    assert!(comes_no_later("a.b", "a_b"));
    assert!(comes_no_later("z", "é"));
    for (a, b) in [("alpha", "zeta"), ("a.b", "a.c"), ("é", "z"), ("ab", "abc")] {
        assert_eq!(comes_no_later(a, b), a <= b);
        assert_eq!(comes_no_later(b, a), b <= a);
    }
}

#[test]
fn names_are_placed_once_and_in_order() {
    let mut names: Vec<String> = Vec::new();
    for n in ["m", "a", "z", "m", "b", "a"] {
        place_name(&mut names, n.to_string());
    }
    assert_eq!(names, vec!["a", "b", "m", "z"]);
}

#[test]
fn entries_are_sorted_by_key() {
    let listing = vec![
        meta("g.c", "u32", "", "1"),
        meta("g.a", "u32", "", "2"),
        meta("g.b", "u32", "", "3"),
        meta("g.a", "u32", "", "4"),
    ];
    let sorted = sorted_by_key(&listing);
    let seen: Vec<(String, String)> = sorted.into_iter().map(|m| (m.key, m.default)).collect();
    let mut expected: Vec<(String, String)> =
        listing.iter().map(|m| (m.key.clone(), m.default.clone())).collect();
    expected.sort_by(|a, b| a.0.cmp(&b.0));
    assert_eq!(seen, expected);
    let mut entries = vec![meta("a", "u32", "", "1"), meta("c", "u32", "", "2")];
    place_entry(&mut entries, meta("b", "u32", "", "3"));
    let keys: Vec<String> = entries.into_iter().map(|m| m.key).collect();
    assert_eq!(keys, vec!["a", "b", "c"]);
}

#[test]
fn a_configuration_shows_its_help() {
    let zeta = Config::new(vec![Field::leaf("depth", "how deep", LeafValue::U32(2))]);
    let alpha = Config::new(vec![
        Field::leaf("width", "", LeafValue::I32(-1)),
        Field::leaf("name", "who", LeafValue::Text("x".to_string())),
    ]);
    let cfg = Config::new(vec![
        Field::namespace("zeta", zeta),
        Field::leaf("retries", "", LeafValue::Usize(3)),
        Field::namespace("alpha", alpha),
    ]);
    let text = cfg.options_help();
    assert_eq!(text, format_options_help(&cfg.options_meta()));
    let lines: Vec<&str> = text.split('\n').collect();
    assert_eq!(lines[2], "alpha.*");
    assert_eq!(lines[3], format!("  {:<28}  default = {:<10}  ({}) {}", "alpha.name", "x", "String", "who"));
    assert_eq!(lines[4], format!("  {:<28}  default = {:<10}  ({})", "alpha.width", "-1", "i32"));
    assert_eq!(lines[6], "retries.*");
    assert_eq!(lines[9], "zeta.*");
    assert_eq!(lines[10], format!("  {:<28}  default = {:<10}  ({}) {}", "zeta.depth", "2", "u32", "how deep"));
    assert_eq!(lines.len(), 11);
}
