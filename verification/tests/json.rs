//! JSON and YAML values.
use alas_launcher::json::{parse_json, parse_yaml, Json};

#[test]
fn a_text_is_taken_apart() {
    let v = parse_json(r#"{"a": [1, -2, 1.5, 18446744073709551615], "b": {"c": null}, "d": "舰\n", "e": true}"#)
        .unwrap();
    match v.get("a").unwrap() {
        Json::Array(items) => {
            assert_eq!(items.len(), 4);
            assert_eq!(items[0].as_u64(), Some(1));
            assert_eq!(items[1].as_u64(), None);
            assert_eq!(items[2].as_u64(), None);
            assert_eq!(items[3].as_u64(), Some(u64::MAX));
        }
        other => panic!("expected an array, got {other:?}"),
    }
    assert_eq!(v.get("a").unwrap().first().unwrap().as_u64(), Some(1));
    assert!(matches!(v.get("b").unwrap().get("c"), Some(Json::Null)));
    assert_eq!(v.get_str("d"), Some("舰\n"));
    assert_eq!(v.get_bool("e"), Some(true));
    assert!(v.get("f").is_none());
    assert_eq!(v.get_str("e"), None);
    assert_eq!(v.get_bool("d"), None);
}

#[test]
fn what_is_no_document_is_refused() {
    assert!(parse_json("").is_none());
    assert!(parse_json("{").is_none());
    assert!(parse_json("{} x").is_none());
    assert!(parse_yaml("a: [").is_none());
}

#[test]
fn the_last_of_two_equal_names_counts() {
    let v = parse_json(r#"{"a": 1, "a": 2}"#).unwrap();
    assert_eq!(v.get("a").unwrap().as_u64(), Some(2));
}

#[test]
fn yaml_is_read_into_the_same_values() {
    let v = parse_yaml("a:\n  - x\n  - 7\nb: false\nc: ~\n").unwrap();
    assert_eq!(v.get("a").unwrap().first().unwrap().as_str(), Some("x"));
    assert_eq!(v.get_bool("b"), Some(false));
    assert!(matches!(v.get("c"), Some(Json::Null)));
    assert!(parse_yaml("").is_some());
}

#[test]
fn copies_hold_the_same() {
    let v = parse_json(r#"{"a": [true, {"b": "c"}]}"#).unwrap();
    assert_eq!(format!("{:?}", v.clone()), format!("{v:?}"));
    assert!(Json::Null.get("a").is_none());
    assert!(Json::Array(vec![]).first().is_none());
    assert!(Json::Null.first().is_none());
}
