use orion::http::util::query_params::extract_query_params;

#[test]
fn path_without_query_keeps_everything() {
    let (path, params) = extract_query_params("/a/b");
    assert_eq!(path, "/a/b");
    assert!(params.is_empty());
}

#[test]
fn query_splits_into_pairs() {
    let (path, params) = extract_query_params("/s?x=1&y=2");
    assert_eq!(path, "/s");
    assert_eq!(
        params,
        vec![("x".to_string(), "1".to_string()), ("y".to_string(), "2".to_string())]
    );
}

#[test]
fn segment_without_equals_is_dropped() {
    let (path, params) = extract_query_params("/s?bad&x=1");
    assert_eq!(path, "/s");
    assert_eq!(params, vec![("x".to_string(), "1".to_string())]);
}

#[test]
fn keys_and_values_are_percent_decoded() {
    let (path, params) = extract_query_params("/s?a%20b=c+d");
    assert_eq!(path, "/s");
    assert_eq!(params, vec![("a b".to_string(), "c d".to_string())]);
}

#[test]
fn empty_value_is_kept() {
    let (_, params) = extract_query_params("/s?x=");
    assert_eq!(params, vec![("x".to_string(), "".to_string())]);
}

#[test]
fn only_first_question_mark_splits() {
    let (path, params) = extract_query_params("/s?x=1?y=2");
    assert_eq!(path, "/s");
    assert_eq!(params, vec![("x".to_string(), "1?y=2".to_string())]);
}
