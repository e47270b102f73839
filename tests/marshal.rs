use plugin_abi::marshal::{marshal_arg, marshal_args, HostArg, MarshalError};
use plugin_abi::parse::{parse_bool, parse_i64, parse_u64};
use plugin_abi::value::{PluginType, PluginValue};

fn arg(text: &str) -> HostArg {
    HostArg { text: text.to_string(), double_bits: text.parse::<f64>().ok().map(f64::to_bits) }
}

#[test]
fn parse_u64_accepts_plain_and_plus_digits() {
    assert_eq!(parse_u64("3"), Some(3));
    assert_eq!(parse_u64("+5"), Some(5));
    assert_eq!(parse_u64("007"), Some(7));
    assert_eq!(parse_u64("18446744073709551615"), Some(u64::MAX));
}

#[test]
fn parse_u64_rejects_malformed_and_overflow() {
    assert_eq!(parse_u64("abc"), None);
    assert_eq!(parse_u64(""), None);
    assert_eq!(parse_u64("+"), None);
    assert_eq!(parse_u64("-1"), None);
    assert_eq!(parse_u64(" 3"), None);
    assert_eq!(parse_u64("3 "), None);
    assert_eq!(parse_u64("1_000"), None);
    assert_eq!(parse_u64("18446744073709551616"), None);
    assert_eq!(parse_u64("99999999999999999999999"), None);
}

#[test]
fn parse_i64_reads_signed_range() {
    assert_eq!(parse_i64("-42"), Some(-42));
    assert_eq!(parse_i64("+42"), Some(42));
    assert_eq!(parse_i64("-0"), Some(0));
    assert_eq!(parse_i64("9223372036854775807"), Some(i64::MAX));
    assert_eq!(parse_i64("-9223372036854775808"), Some(i64::MIN));
    assert_eq!(parse_i64("9223372036854775808"), None);
    assert_eq!(parse_i64("-9223372036854775809"), None);
    assert_eq!(parse_i64("-"), None);
    assert_eq!(parse_i64("--1"), None);
    assert_eq!(parse_i64("4.5"), None);
}

#[test]
fn parsers_agree_with_std_on_samples() {
    for s in ["0", "1", "+1", "-1", "", "+", "-", "12a", "٣", "00", "-00", "170141183460469231731687303715884105727"] {
        assert_eq!(parse_u64(s), s.parse::<u64>().ok(), "u64 {:?}", s);
        assert_eq!(parse_i64(s), s.parse::<i64>().ok(), "i64 {:?}", s);
        assert_eq!(parse_bool(s), s.parse::<bool>().ok(), "bool {:?}", s);
    }
}

#[test]
fn parse_bool_is_strict() {
    assert_eq!(parse_bool("true"), Some(true));
    assert_eq!(parse_bool("false"), Some(false));
    assert_eq!(parse_bool("True"), None);
    assert_eq!(parse_bool("1"), None);
    assert_eq!(parse_bool("truex"), None);
}

#[test]
fn marshal_repeat_arguments() {
    let r = marshal_args(&vec![arg("ab"), arg("3")], &vec![PluginType::String, PluginType::UInt]);
    assert_eq!(r, Ok(vec![PluginValue::String(b"ab".to_vec()), PluginValue::UInt(3)]));
}

#[test]
fn marshal_count_mismatch_reported_first() {
    let r = marshal_args(&vec![arg("x")], &vec![PluginType::String, PluginType::UInt]);
    assert_eq!(r, Err(MarshalError::CountMismatch { expected: 2, got: 1 }));
    let r = marshal_args(&vec![arg("a"), arg("b"), arg("c")], &vec![PluginType::UInt, PluginType::UInt]);
    assert_eq!(r, Err(MarshalError::CountMismatch { expected: 2, got: 3 }));
}

#[test]
fn marshal_non_numeric_count_is_an_error() {
    let r = marshal_args(&vec![arg("ab"), arg("x")], &vec![PluginType::String, PluginType::UInt]);
    assert_eq!(r, Err(MarshalError::InvalidArg { index: 1, kind: PluginType::UInt }));
    let r = marshal_args(&vec![arg("ab"), arg("abc")], &vec![PluginType::String, PluginType::UInt]);
    assert_eq!(r, Err(MarshalError::InvalidArg { index: 1, kind: PluginType::UInt }));
}

#[test]
fn marshal_stops_at_first_failure() {
    let r = marshal_args(
        &vec![arg("yes"), arg("1.5"), arg("nope")],
        &vec![PluginType::Bool, PluginType::Double, PluginType::Int],
    );
    assert_eq!(r, Err(MarshalError::InvalidArg { index: 0, kind: PluginType::Bool }));
}

#[test]
fn marshal_empty_schema_and_empty_arguments() {
    assert_eq!(marshal_args(&vec![], &vec![]), Ok(vec![]));
}

#[test]
fn marshal_every_kind() {
    let r = marshal_args(
        &vec![arg("true"), arg("-7"), arg("8"), arg("2.5"), arg("héllo")],
        &vec![PluginType::Bool, PluginType::Int, PluginType::UInt, PluginType::Double, PluginType::String],
    );
    assert_eq!(
        r,
        Ok(vec![
            PluginValue::Bool(true),
            PluginValue::Int(-7),
            PluginValue::UInt(8),
            PluginValue::Double(2.5f64.to_bits()),
            PluginValue::String("héllo".as_bytes().to_vec()),
        ])
    );
}

#[test]
fn marshal_double_needs_a_reading() {
    let r = marshal_arg(&arg("abc"), PluginType::Double);
    assert_eq!(r, None);
    let r = marshal_arg(&HostArg { text: "1e3".to_string(), double_bits: Some(1000f64.to_bits()) }, PluginType::Double);
    assert_eq!(r, Some(PluginValue::Double(1000f64.to_bits())));
}

#[test]
fn marshal_string_with_nul_is_refused() {
    assert_eq!(marshal_arg(&arg("a\0b"), PluginType::String), None);
    assert_eq!(marshal_arg(&arg(""), PluginType::String), Some(PluginValue::String(vec![])));
}
