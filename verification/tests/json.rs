use celestial_overlay::json::Json;

fn sample() -> Json {
    Json::Object(vec![
        ("title".to_string(), Json::Text("Orion".to_string())),
        ("count".to_string(), Json::Number("3".to_string())),
        ("missing".to_string(), Json::Null),
        ("tags".to_string(), Json::Array(vec![Json::Bool(true), Json::Text("x".to_string())])),
        ("title".to_string(), Json::Text("second".to_string())),
    ])
}

#[test]
fn get_finds_the_first_member_of_that_name() {
    let value = sample();
    assert_eq!(value.get("title").and_then(|member| member.as_str()), Some("Orion"));
    assert!(value.get("missing").unwrap().is_null());
    assert!(value.get("absent").is_none());
}

#[test]
fn get_on_what_is_no_object_finds_nothing() {
    assert!(Json::Null.get("a").is_none());
    assert!(Json::Text("a".to_string()).get("a").is_none());
    assert!(Json::Array(vec![]).get("a").is_none());
}

#[test]
fn as_str_is_for_strings_only() {
    assert_eq!(Json::Text("abc".to_string()).as_str(), Some("abc"));
    assert_eq!(Json::Number("1".to_string()).as_str(), None);
    assert_eq!(Json::Null.as_str(), None);
    assert!(Json::Text(String::new()).is_string());
    assert!(!Json::Bool(false).is_string());
}

#[test]
fn as_array_is_for_arrays_only() {
    let value = sample();
    let tags = value.get("tags").unwrap().as_array().unwrap();
    assert_eq!(tags.len(), 2);
    assert_eq!(tags[1].as_str(), Some("x"));
    assert!(value.as_array().is_none());
    assert!(Json::Null.as_array().is_none());
}

#[test]
fn is_null_is_for_null_only() {
    assert!(Json::Null.is_null());
    assert!(!Json::Bool(false).is_null());
    assert!(!Json::Array(vec![]).is_null());
}
