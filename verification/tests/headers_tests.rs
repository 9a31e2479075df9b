use leafhttp::headers::Headers;

#[test]
fn iteration_is_sorted_by_name() {
    let mut headers = Headers::new();
    headers.insert("Zulu".to_string(), "1".to_string());
    headers.insert("Alpha".to_string(), "2".to_string());
    headers.insert("Mike".to_string(), "3".to_string());
    assert_eq!(headers.len(), 3);
    assert_eq!(headers.name_at(0), "Alpha");
    assert_eq!(headers.name_at(1), "Mike");
    assert_eq!(headers.name_at(2), "Zulu");
    assert_eq!(headers.value_at(0), "2");
}

#[test]
fn names_are_case_sensitive_and_unique() {
    let mut headers = Headers::new();
    headers.insert("Key".to_string(), "a".to_string());
    headers.insert("key".to_string(), "b".to_string());
    assert_eq!(headers.len(), 2);
    headers.insert("Key".to_string(), "c".to_string());
    assert_eq!(headers.len(), 2);
    assert_eq!(headers.get("Key").unwrap(), "c");
    assert_eq!(headers.get("key").unwrap(), "b");
    assert!(headers.contains_key("Key"));
    assert!(!headers.contains_key("KEY"));
    assert!(headers.get("missing").is_none());
}
