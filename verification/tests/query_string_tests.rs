use http_core::query_string::{QueryString, Value};

fn expect_single<'a>(qs: &'a QueryString, key: &str) -> &'a str {
    match qs.get(key) {
        Some(Value::Single(v)) => v,
        Some(Value::Multiple(_)) => panic!("key {} is Multiple, expected Single", key),
        None => panic!("key {} is absent", key),
    }
}

fn expect_multiple<'a>(qs: &'a QueryString, key: &str) -> Vec<&'a str> {
    match qs.get(key) {
        Some(Value::Multiple(vs)) => vs.clone(),
        Some(Value::Single(_)) => panic!("key {} is Single, expected Multiple", key),
        None => panic!("key {} is absent", key),
    }
}

#[test]
fn round_trip_mixed_fragment() {
    let qs = QueryString::parse("a=1&b=1&c&d=&e===&d=7&d=abc");
    assert_eq!(expect_single(&qs, "a"), "1");
    assert_eq!(expect_single(&qs, "b"), "1");
    assert_eq!(expect_single(&qs, "c"), "");
    assert_eq!(expect_multiple(&qs, "d"), vec!["", "7", "abc"]);
    assert_eq!(expect_single(&qs, "e"), "==");
}

#[test]
fn absent_key_is_none() {
    let qs = QueryString::parse("a=1&b=2");
    assert!(qs.get("c").is_none());
    assert!(qs.get("").is_none());
}

#[test]
fn bare_key_has_empty_value() {
    let qs = QueryString::parse("flag");
    assert_eq!(expect_single(&qs, "flag"), "");
}

#[test]
fn key_with_empty_right_hand_side() {
    let qs = QueryString::parse("k=");
    assert_eq!(expect_single(&qs, "k"), "");
}

#[test]
fn extra_equals_belong_to_value() {
    let qs = QueryString::parse("e===");
    assert_eq!(expect_single(&qs, "e"), "==");
}

#[test]
fn duplicate_keys_accumulate_in_order() {
    let qs = QueryString::parse("x=first&x=second&x=third");
    assert_eq!(expect_multiple(&qs, "x"), vec!["first", "second", "third"]);
}

#[test]
fn parse_is_total_on_odd_inputs() {
    // No input string causes parsing to fail: these only need to return.
    let empty = QueryString::parse("");
    assert_eq!(expect_single(&empty, ""), "");
    let amps = QueryString::parse("&&&");
    assert_eq!(expect_multiple(&amps, ""), vec!["", "", "", ""]);
    let eqs = QueryString::parse("===");
    assert_eq!(expect_single(&eqs, ""), "==");
    let _ = QueryString::parse("=&=&=");
    let _ = QueryString::parse("a&a&a");
}

#[test]
fn only_ampersands_yield_one_empty_key() {
    // Every piece of "&&" is the empty key, accumulated as one entry.
    let qs = QueryString::parse("&&");
    match qs.get("") {
        Some(Value::Multiple(vs)) => assert_eq!(vs.clone(), vec!["", "", ""]),
        other => panic!("unexpected entry for empty key: {:?}", other.is_some()),
    }
}
