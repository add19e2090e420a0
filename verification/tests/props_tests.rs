use minigis::jsonval::JsonValue;
use minigis::props::PropMap;

#[test]
fn insert_appends_new_keys_in_order() {
    let mut m = PropMap::new();
    m.insert("a".to_string(), JsonValue::Int(1));
    m.insert("b".to_string(), JsonValue::Int(2));
    assert_eq!(m.len(), 2);
    assert_eq!(m.entries[0].0, "a");
    assert_eq!(m.entries[1].0, "b");
}

#[test]
fn insert_overwrites_in_place() {
    let mut m = PropMap::new();
    m.insert("a".to_string(), JsonValue::Int(1));
    m.insert("b".to_string(), JsonValue::Int(2));
    m.insert("a".to_string(), JsonValue::Str("x".to_string()));
    assert_eq!(m.len(), 2);
    assert_eq!(m.entries[0].0, "a");
    assert_eq!(m.get("a"), Some(&JsonValue::Str("x".to_string())));
    assert_eq!(m.get("b"), Some(&JsonValue::Int(2)));
}

#[test]
fn get_missing_key_is_none() {
    let m = PropMap::new();
    assert_eq!(m.get("nope"), None);
}
