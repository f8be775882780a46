//! JSON bodies.

use sjnmusic::json::{parse_body, parse_json, Json};
use sjnmusic::real64::Real64;

fn num(x: f64) -> Real64 {
    Real64 { bits: x.to_bits() }
}

#[test]
fn values_are_read() {
    let v = parse_json("{\"a\": \"x\", \"n\": -3, \"d\": 1.5, \"l\": [true, null]}").unwrap();
    assert_eq!(v.get_text("a"), Some("x".to_string()));
    assert_eq!(v.get_text("n"), None);
    assert_eq!(v.get("n").unwrap().as_whole(), Some(-3));
    assert_eq!(v.get("n").unwrap().as_real(), Some(num(-3.0)));
    assert_eq!(v.get("d").unwrap().as_real(), Some(num(1.5)));
    assert_eq!(v.get("d").unwrap().as_whole(), None);
    match v.get("l").unwrap() {
        Json::List(l) => {
            assert!(matches!(l[0], Json::Bool(true)));
            assert!(matches!(l[1], Json::Null));
        }
        _ => panic!("a list"),
    }
    assert!(v.get("missing").is_none());
    assert!(Json::Null.get("a").is_none());
}

#[test]
fn great_numbers_are_no_whole_ones() {
    let v = parse_json("18446744073709551615").unwrap();
    assert_eq!(v.as_whole(), None);
    assert_eq!(v.as_real(), Some(num(18446744073709551615.0)));
}

#[test]
fn later_members_win() {
    let v = parse_json("{\"a\": 1, \"a\": 2}").unwrap();
    assert_eq!(v.get("a").unwrap().as_whole(), Some(2));
}

#[test]
fn empty_bodies_are_null() {
    assert!(matches!(parse_body("").unwrap(), Json::Null));
    assert!(matches!(parse_body("  \n").unwrap(), Json::Null));
    assert!(parse_body("{").is_err());
    let want = serde_json::from_str::<serde_json::Value>("{").unwrap_err().to_string();
    assert_eq!(parse_body("{").unwrap_err(), want);
}
