use wispr_flow_linux_helper::json::{list, member, object, payload, text_value, Json};

#[test]
fn members_are_found_by_key() {
    let value = object(vec![member("a", Json::Uint(1)), member("b", Json::Null)]);
    assert_eq!(value.get("a").and_then(|v| v.as_u64()), Some(1));
    assert!(matches!(value.get("b"), Some(Json::Null)));
    assert!(value.get("c").is_none());
    assert!(Json::Uint(1).get("a").is_none());
    assert!(matches!(payload(Json::Null).get("payload"), Some(Json::Null)));
}

#[test]
fn values_are_read_by_type() {
    assert_eq!(text_value("x").as_str(), Some("x"));
    assert_eq!(Json::Uint(3).as_str(), None);
    assert_eq!(Json::OtherNumber.as_u64(), None);
    assert_eq!(text_value("3").as_u64(), None);
    assert_eq!(Json::Bool(true).as_bool(), Some(true));
    assert_eq!(Json::Null.as_bool(), None);
}

#[test]
fn lists_keep_what_fits() {
    let mixed = list(vec![text_value("a"), Json::Uint(1), Json::Bool(true), text_value("b"), Json::Uint(2)]);
    assert_eq!(mixed.to_texts(), vec!["a", "b"]);
    assert_eq!(mixed.to_u64s(), vec![1, 2]);
    assert!(text_value("a").to_texts().is_empty());
    assert!(Json::Uint(1).to_u64s().is_empty());
}
