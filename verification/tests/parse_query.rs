//! The chat front-end's query parser, exercised token by token.

use bbs_search::botquery::parse_search_query;

#[test]
fn test_parse_search_query_id() {
    let query = parse_search_query("id:abc123");
    assert_eq!(query.id, Some("abc123".to_string()));
    assert_eq!(query.main_text, None);
}

#[test]
fn test_parse_search_query_with_text() {
    let query = parse_search_query("id:abc123 hello world");
    assert_eq!(query.id, Some("abc123".to_string()));
    assert_eq!(query.main_text, Some("hello world".to_string()));
}

#[test]
fn test_parse_search_query_multiple_params() {
    let query = parse_search_query("id:abc123 name_and_trip:test oekaki:true hello");
    assert_eq!(query.id, Some("abc123".to_string()));
    assert_eq!(query.name_and_trip, Some("test".to_string()));
    assert_eq!(query.oekaki, Some(true));
    assert_eq!(query.main_text, Some("hello".to_string()));
}

#[test]
fn test_parse_search_query_dates() {
    let query = parse_search_query("since:2024-01-01 until:2024-12-31");
    assert_eq!(query.since, Some("2024-01-01".to_string()));
    assert_eq!(query.until, Some("2024-12-31".to_string()));
}

#[test]
fn test_parse_search_query_limit() {
    let query = parse_search_query("limit:10 test search");
    assert_eq!(query.limit, Some(10));
    assert_eq!(query.main_text, Some("test search".to_string()));
}

#[test]
fn test_parse_search_query_only_text() {
    let query = parse_search_query("just some search text");
    assert_eq!(query.main_text, Some("just some search text".to_string()));
    assert_eq!(query.id, None);
    assert_eq!(query.limit, None);
}

#[test]
fn test_parse_search_query_count() {
    let query = parse_search_query("count:true test search");
    assert_eq!(query.count, Some(true));
    assert_eq!(query.main_text, Some("test search".to_string()));

    let query = parse_search_query("count:false");
    assert_eq!(query.count, Some(false));
    assert_eq!(query.main_text, None);
}

#[test]
fn test_parse_unparseable_flag_consumes_token() {
    // A recognized key with an unparseable value sets nothing and the
    // token does not join the free text.
    let query = parse_search_query("oekaki:maybe hello");
    assert_eq!(query.oekaki, None);
    assert_eq!(query.main_text, Some("hello".to_string()));
}

#[test]
fn test_parse_limit_overflow_and_plus() {
    let query = parse_search_query("limit:+7");
    assert_eq!(query.limit, Some(7));
    let query = parse_search_query("limit:99999999999999999999");
    assert_eq!(query.limit, None);
}

#[test]
fn test_parse_unknown_key_joins_text() {
    // `main_text:` is not a recognized key; the whole token is free text.
    let query = parse_search_query("main_text:abc xyz");
    assert_eq!(query.main_text, Some("main_text:abc xyz".to_string()));
}

#[test]
fn test_build_search_params_order_and_flags() {
    let query = parse_search_query("id:abc oekaki:true since:2024-01-01 hello world");
    let params = bbs_search::botquery::build_search_params(&query);
    let got: Vec<(String, String)> = params;
    assert_eq!(
        got,
        vec![
            ("id".to_string(), "abc".to_string()),
            ("main_text".to_string(), "hello world".to_string()),
            ("oekaki".to_string(), "true".to_string()),
            ("since".to_string(), "2024-01-01".to_string()),
        ]
    );
}

#[test]
fn test_effective_limit() {
    assert_eq!(bbs_search::botquery::effective_limit(Some(10), 5), 10);
    assert_eq!(bbs_search::botquery::effective_limit(None, 5), 5);
}
