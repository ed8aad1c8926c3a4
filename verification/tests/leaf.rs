use clikeys::decimal::{format_signed, format_unsigned};
use clikeys::leaf::ParseFromStr;
use clikeys::value::{LeafType, LeafValue};

#[test]
fn unsigned_integers_are_read() {
    assert_eq!(u32::parse_str("64"), Ok(64));
    assert_eq!(u32::parse_str("+64"), Ok(64));
    assert_eq!(u32::parse_str("0064"), Ok(64));
    assert_eq!(u32::parse_str("4294967295"), Ok(u32::MAX));
    assert_eq!(u64::parse_str("18446744073709551615"), Ok(u64::MAX));
    assert_eq!(usize::parse_str("3"), Ok(3));
}

#[test]
fn signed_integers_are_read() {
    assert_eq!(i32::parse_str("-2147483648"), Ok(i32::MIN));
    assert_eq!(i32::parse_str("2147483647"), Ok(i32::MAX));
    assert_eq!(i32::parse_str("-0"), Ok(0));
    assert_eq!(i64::parse_str("+7"), Ok(7));
    assert_eq!(i64::parse_str("-9223372036854775808"), Ok(i64::MIN));
}

#[test]
fn integers_are_refused_with_the_message_of_std() {
    assert_eq!(u32::parse_str(""), Err("cannot parse integer from empty string".to_string()));
    assert_eq!(u32::parse_str("-1"), Err("invalid digit found in string".to_string()));
    assert_eq!(u32::parse_str("+"), Err("invalid digit found in string".to_string()));
    assert_eq!(i32::parse_str("-"), Err("invalid digit found in string".to_string()));
    assert_eq!(u32::parse_str(" 5"), Err("invalid digit found in string".to_string()));
    assert_eq!(u32::parse_str("5 "), Err("invalid digit found in string".to_string()));
    assert_eq!(u32::parse_str("1_000"), Err("invalid digit found in string".to_string()));
    assert_eq!(
        u32::parse_str("4294967296"),
        Err("number too large to fit in target type".to_string())
    );
    assert_eq!(
        i32::parse_str("-2147483649"),
        Err("number too small to fit in target type".to_string())
    );
    assert_eq!(
        u64::parse_str("18446744073709551616"),
        Err("number too large to fit in target type".to_string())
    );
    assert_eq!(i64::parse_str("x"), Err("invalid digit found in string".to_string()));
    assert_eq!(usize::parse_str("3.0"), Err("invalid digit found in string".to_string()));
}

#[test]
fn truth_values_are_read() {
    assert_eq!(bool::parse_str("true"), Ok(true));
    assert_eq!(bool::parse_str("false"), Ok(false));
    assert_eq!(
        bool::parse_str("True"),
        Err("provided string was not `true` or `false`".to_string())
    );
    assert!(bool::parse_str("1").is_err());
    assert!(bool::parse_str("").is_err());
    assert!(bool::parse_str(" true").is_err());
}

#[test]
fn text_is_read_as_it_stands() {
    assert_eq!(String::parse_str("a b  "), Ok("a b  ".to_string()));
    assert_eq!(String::parse_str(""), Ok(String::new()));
}

#[test]
fn integers_are_shown_in_decimal() {
    assert_eq!(format_unsigned(0), "0");
    assert_eq!(format_unsigned(7), "7");
    assert_eq!(format_unsigned(10), "10");
    assert_eq!(format_unsigned(1234567890), "1234567890");
    assert_eq!(format_unsigned(u64::MAX), "18446744073709551615");
    assert_eq!(format_signed(0), "0");
    assert_eq!(format_signed(-1), "-1");
    assert_eq!(format_signed(i64::MIN), "-9223372036854775808");
    assert_eq!(format_signed(i64::MAX), "9223372036854775807");
}

#[test]
fn values_are_shown_canonically() {
    assert_eq!(LeafValue::Bool(true).to_text(), "true");
    assert_eq!(LeafValue::Bool(false).to_text(), "false");
    assert_eq!(LeafValue::Usize(3).to_text(), "3");
    assert_eq!(LeafValue::U32(64).to_text(), "64");
    assert_eq!(LeafValue::U64(u64::MAX).to_text(), u64::MAX.to_string());
    assert_eq!(LeafValue::I32(i32::MIN).to_text(), i32::MIN.to_string());
    assert_eq!(LeafValue::I64(-5).to_text(), "-5");
    assert_eq!(LeafValue::Text("a b".to_string()).to_text(), "a b");
}

fn same(a: &LeafValue, b: &LeafValue) -> bool {
    match (a, b) {
        (LeafValue::Bool(x), LeafValue::Bool(y)) => x == y,
        (LeafValue::Usize(x), LeafValue::Usize(y)) => x == y,
        (LeafValue::U32(x), LeafValue::U32(y)) => x == y,
        (LeafValue::U64(x), LeafValue::U64(y)) => x == y,
        (LeafValue::I32(x), LeafValue::I32(y)) => x == y,
        (LeafValue::I64(x), LeafValue::I64(y)) => x == y,
        (LeafValue::Text(x), LeafValue::Text(y)) => x == y,
        _ => false,
    }
}

#[test]
fn round_trip_on_chosen_values() {
    let values = vec![
        LeafValue::Bool(true),
        LeafValue::Bool(false),
        LeafValue::Usize(0),
        LeafValue::Usize(usize::MAX),
        LeafValue::U32(0),
        LeafValue::U32(u32::MAX),
        LeafValue::U64(u64::MAX),
        LeafValue::I32(i32::MIN),
        LeafValue::I32(i32::MAX),
        LeafValue::I32(-1),
        LeafValue::I64(i64::MIN),
        LeafValue::I64(i64::MAX),
        LeafValue::Text(String::new()),
        LeafValue::Text("  x = y.z ".to_string()),
    ];
    for v in values.iter() {
        let back = v.kind().read(&v.to_text()).unwrap();
        assert!(same(v, &back), "{:?} came back as {:?}", v, back);
    }
}

#[test]
fn the_text_of_std_is_the_canonical_text() {
    for n in [0u64, 1, 9, 10, 99, 100, 12345, u64::MAX - 1] {
        assert_eq!(format_unsigned(n), n.to_string());
    }
    for n in [-100i64, -10, -9, -1, 0, 1, 9, 10, i64::MAX - 1] {
        assert_eq!(format_signed(n), n.to_string());
    }
}

#[test]
fn types_have_their_tags() {
    assert_eq!(LeafType::Bool.name(), "bool");
    assert_eq!(LeafType::Usize.name(), "usize");
    assert_eq!(LeafType::U32.name(), "u32");
    assert_eq!(LeafType::U64.name(), "u64");
    assert_eq!(LeafType::I32.name(), "i32");
    assert_eq!(LeafType::I64.name(), "i64");
    assert_eq!(LeafType::Text.name(), "String");
    assert_eq!(LeafValue::I32(1).kind(), LeafType::I32);
}

#[test]
fn a_type_reads_its_own_values_only() {
    assert!(matches!(LeafType::U32.read("7"), Ok(LeafValue::U32(7))));
    assert!(matches!(LeafType::I64.read("-7"), Ok(LeafValue::I64(-7))));
    assert!(matches!(LeafType::Bool.read("false"), Ok(LeafValue::Bool(false))));
    assert!(LeafType::U32.read("-7").is_err());
    assert!(LeafType::Bool.read("7").is_err());
    match LeafType::Text.read("7") {
        Ok(LeafValue::Text(s)) => assert_eq!(s, "7"),
        other => panic!("unexpected: {:?}", other),
    }
}
