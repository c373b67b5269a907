use pr_comment_analyzer::errors::AnalyzerError;
use pr_comment_analyzer::json::{parse_comment_page, parse_user_response};
use pr_comment_analyzer::records::count_user_comments;

#[test]
fn empty_array_body_yields_no_records() {
    let records = parse_comment_page("[]").unwrap();
    assert_eq!(records.len(), 0);
}

#[test]
fn array_body_yields_author_logins() {
    let body = r#"[
        {"id": 1, "user": {"login": "alice"}, "body": "looks good"},
        {"id": 2, "user": {"login": "bob"}, "body": "nit"},
        {"id": 3, "user": {"login": "alice"}}
    ]"#;
    let records = parse_comment_page(body).unwrap();
    assert_eq!(records.len(), 3);
    assert_eq!(records[0].author.as_deref(), Some("alice"));
    assert_eq!(records[1].author.as_deref(), Some("bob"));
    assert_eq!(count_user_comments(&records, "alice"), 2);
}

#[test]
fn records_without_string_author_yield_no_login() {
    let body = r#"[
        {"id": 1},
        {"id": 2, "user": {}},
        {"id": 3, "user": {"login": 7}},
        {"id": 4, "user": null},
        {"id": 5, "user": {"login": "alice"}}
    ]"#;
    let records = parse_comment_page(body).unwrap();
    assert_eq!(records.len(), 5);
    assert_eq!(records[0].author, None);
    assert_eq!(records[1].author, None);
    assert_eq!(records[2].author, None);
    assert_eq!(records[3].author, None);
    assert_eq!(records[4].author.as_deref(), Some("alice"));
    assert_eq!(count_user_comments(&records, "alice"), 1);
}

#[test]
fn non_json_body_is_malformed() {
    assert!(matches!(
        parse_comment_page("not json"),
        Err(AnalyzerError::MalformedResponseBody)
    ));
}

#[test]
fn non_array_body_is_malformed() {
    assert!(matches!(
        parse_comment_page(r#"{"message": "Not Found"}"#),
        Err(AnalyzerError::MalformedResponseBody)
    ));
}

#[test]
fn user_response_yields_login() {
    let login = parse_user_response(200, r#"{"login": "bob", "id": 99}"#).unwrap();
    assert_eq!(login, "bob");
}

#[test]
fn failing_user_status_is_authentication_failure() {
    assert!(matches!(
        parse_user_response(401, r#"{"login": "bob"}"#),
        Err(AnalyzerError::AuthenticationFailed)
    ));
}

#[test]
fn user_body_without_login_is_authentication_failure() {
    assert!(matches!(
        parse_user_response(200, r#"{"id": 99}"#),
        Err(AnalyzerError::AuthenticationFailed)
    ));
    assert!(matches!(
        parse_user_response(200, r#"{"login": 5}"#),
        Err(AnalyzerError::AuthenticationFailed)
    ));
    assert!(matches!(
        parse_user_response(200, "no body"),
        Err(AnalyzerError::AuthenticationFailed)
    ));
}
