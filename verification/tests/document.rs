use toiletdb::Document;

#[test]
fn empty_document_has_no_keys() {
    let d = Document::empty();
    assert!(d.get(&"k".to_string()).is_none());
}

#[test]
fn insert_then_get_returns_the_value() {
    let mut d = Document::empty();
    d.insert("k".to_string(), serde_json::Value::from(41));
    assert_eq!(d.get(&"k".to_string()), Some(&serde_json::Value::from(41)));
    assert!(d.get(&"other".to_string()).is_none());
}

#[test]
fn insert_overwrites_existing_key() {
    let mut d = Document::empty();
    d.insert("k".to_string(), serde_json::Value::from(1));
    d.insert("k".to_string(), serde_json::Value::from(2));
    assert_eq!(d.get(&"k".to_string()), Some(&serde_json::Value::from(2)));
}

#[test]
fn remove_drops_only_the_named_key() {
    let mut d = Document::empty();
    d.insert("a".to_string(), serde_json::Value::from(1));
    d.insert("b".to_string(), serde_json::Value::from(2));
    d.remove(&"a".to_string());
    assert!(d.get(&"a".to_string()).is_none());
    assert_eq!(d.get(&"b".to_string()), Some(&serde_json::Value::from(2)));
}

#[test]
fn remove_of_absent_key_is_a_no_op() {
    let mut d = Document::empty();
    d.insert("a".to_string(), serde_json::Value::from(1));
    d.remove(&"missing".to_string());
    assert_eq!(d.get(&"a".to_string()), Some(&serde_json::Value::from(1)));
}

#[test]
fn encoding_decodes_back_to_the_same_document() {
    let mut d = Document::empty();
    d.insert("x".to_string(), serde_json::Value::from("y"));
    d.insert("n".to_string(), serde_json::Value::from(3));
    let text = toiletdb::encode_doc(&d).expect("shallow documents encode");
    let back = toiletdb::decode_doc(&text).expect("encoded documents parse");
    assert_eq!(back.get(&"x".to_string()), Some(&serde_json::Value::from("y")));
    assert_eq!(back.get(&"n".to_string()), Some(&serde_json::Value::from(3)));
    assert!(back.get(&"z".to_string()).is_none());
}

#[test]
fn decode_rejects_text_that_is_not_an_object() {
    assert!(toiletdb::decode_doc("true").is_none());
    assert!(toiletdb::decode_doc("{broken").is_none());
}
