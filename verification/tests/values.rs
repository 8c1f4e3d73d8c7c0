use chat_system::json::{get_opt, i64_opt, int_value, object2, str_opt, str_value, with_member, Json};
use chat_system::number::{i64_to_string, parse_slack_ts, u64_to_string};
use chat_system::timestamp::time_or_now;

fn sample() -> Json {
    let inner = object2("id", int_value(7), "name", str_value("n"));
    object2("d", inner, "flag", Json::Bool(true))
}

#[test]
fn json_lookups() {
    let v = sample();
    assert_eq!(i64_opt(get_opt(v.get("d"), "id")), Some(7));
    assert_eq!(str_opt(get_opt(v.get("d"), "name")), Some("n"));
    assert_eq!(str_opt(get_opt(v.get("d"), "id")), None);
    assert_eq!(v.get("flag").and_then(|f| f.as_bool()), Some(true));
    assert!(v.get("missing").is_none());
    assert!(Json::Null.is_null());
    assert!(Json::Str("x".to_string()).get("x").is_none());
    assert_eq!(Json::Number(Some(-1), None).as_u64(), None);
    assert_eq!(Json::Number(Some(3), Some(3)).as_u64(), Some(3));
    let arr = Json::Array(vec![Json::Null, str_value("a")]);
    assert_eq!(arr.as_array().map(|a| a.len()), Some(2));
}

#[test]
fn json_duplicate_and_members() {
    let v = sample();
    let copy = v.duplicate();
    assert_eq!(format!("{:?}", copy), format!("{:?}", v));
    let extended = with_member(copy, "extra", str_value("e"));
    assert_eq!(str_opt(extended.get("extra")), Some("e"));
    assert_eq!(i64_opt(get_opt(extended.get("d"), "id")), Some(7));
    // The first of two equal keys is the one read.
    let twice = with_member(object2("k", str_value("first"), "j", Json::Null), "k", str_value("second"));
    assert_eq!(str_opt(twice.get("k")), Some("first"));
}

#[test]
fn decimal_numbers() {
    assert_eq!(u64_to_string(0), "0");
    assert_eq!(u64_to_string(u64::MAX), "18446744073709551615");
    assert_eq!(i64_to_string(-42), "-42");
    assert_eq!(i64_to_string(i64::MIN), "-9223372036854775808");
    assert_eq!(i64_to_string(i64::MAX), "9223372036854775807");
}

#[test]
fn slack_timestamps_are_whole_seconds() {
    assert_eq!(parse_slack_ts("1700000001.000100"), 1700000001);
    assert_eq!(parse_slack_ts("-5.9"), -5);
    assert_eq!(parse_slack_ts("abc.1"), 0);
    assert_eq!(parse_slack_ts(""), 0);
}

#[test]
fn rfc3339_times_or_now() {
    assert_eq!(time_or_now(Some("2024-01-01T00:00:00Z"), 5), 1704067200);
    assert_eq!(time_or_now(Some("2024-01-01T01:00:00+01:00"), 5), 1704067200);
    assert_eq!(time_or_now(Some("yesterday"), 5), 5);
    assert_eq!(time_or_now(None, 9), 9);
}
