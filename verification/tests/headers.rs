use orion::http::HttpHeaders;

#[test]
fn lookup_is_case_insensitive() {
    let mut h = HttpHeaders::new();
    h.insert("Content-Type".to_string(), "text/html".to_string());
    assert_eq!(h.get("content-type").unwrap().as_str(), "text/html");
    assert_eq!(h.get("CONTENT-TYPE").unwrap().as_str(), "text/html");
    assert!(h.get("content-length").is_none());
}

#[test]
fn names_are_stored_folded() {
    let mut h = HttpHeaders::new();
    h.insert("X-Mixed-Case".to_string(), "v".to_string());
    let pairs = h.iter();
    assert_eq!(pairs.len(), 1);
    assert_eq!(pairs[0].0, "x-mixed-case");
}

#[test]
fn insert_overwrites_case_insensitively() {
    let mut h = HttpHeaders::new();
    h.insert("Accept".to_string(), "text/html".to_string());
    h.insert("ACCEPT".to_string(), "application/json".to_string());
    assert_eq!(h.iter().len(), 1);
    assert_eq!(h.get("accept").unwrap().as_str(), "application/json");
}

#[test]
fn from_pairs_acts_as_repeated_inserts() {
    let h = HttpHeaders::from_pairs(vec![
        ("A".to_string(), "1".to_string()),
        ("B".to_string(), "2".to_string()),
        ("a".to_string(), "3".to_string()),
    ]);
    assert_eq!(h.iter().len(), 2);
    assert_eq!(h.get("a").unwrap().as_str(), "3");
    assert_eq!(h.get("b").unwrap().as_str(), "2");
}

#[test]
fn default_is_empty() {
    let h = HttpHeaders::default();
    assert_eq!(h.iter().len(), 0);
    assert_eq!(h.len(), 0);
}

#[test]
fn clone_keeps_the_pairs() {
    let mut h = HttpHeaders::new();
    h.insert("Host".to_string(), "example.com".to_string());
    let copy = h.clone();
    assert_eq!(copy.get("host").unwrap().as_str(), "example.com");
}

#[test]
fn non_ascii_names_are_kept_as_given() {
    let mut h = HttpHeaders::new();
    h.insert("X-Caf\u{e9}".to_string(), "v".to_string());
    assert_eq!(h.get("x-caf\u{e9}").unwrap().as_str(), "v");
}
