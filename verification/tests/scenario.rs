//! End-to-end scenarios over the library's public functions, with the HTTP
//! layer replaced by literal responses.

use pr_comment_analyzer::errors::AnalyzerError;
use pr_comment_analyzer::json::{parse_comment_page, parse_user_response};
use pr_comment_analyzer::pagination::Paginator;
use pr_comment_analyzer::report::{aggregate_pr, build_report};

#[test]
fn one_pr_with_three_categories_and_manual_addition() {
    // Token valid: the user endpoint authenticates login "bob".
    let login = parse_user_response(200, r#"{"login": "bob"}"#).unwrap();
    assert_eq!(login, "bob");

    // The three category endpoints return 2, 1 and 0 items matching "bob".
    let pr_comments = parse_comment_page(
        r#"[{"user": {"login": "bob"}}, {"user": {"login": "bob"}}, {"user": {"login": "eve"}}]"#,
    )
    .unwrap();
    let review_comments =
        parse_comment_page(r#"[{"user": {"login": "bob"}}, {"user": {"login": "eve"}}]"#).unwrap();
    let issue_comments = parse_comment_page(r#"[{"user": {"login": "eve"}}]"#).unwrap();

    let counts = aggregate_pr(1, &pr_comments, &review_comments, &issue_comments, &login);
    assert_eq!(counts.total(), 3);

    // With two more comments counted by hand and a 50-minute budget, the
    // report shows 5 comments at 10.00 minutes each.
    let report = build_report(&vec![counts], 2, 50);
    assert_eq!(report.total_comments, 5);
    assert_eq!(report.minutes_per_comment_hundredths, Some(1000));
}

#[test]
fn not_found_pr_fetch_aborts_with_no_items() {
    // A 404 on the first page of a category leaves nothing accumulated and
    // surfaces the status, so the run aborts with no partial summary.
    let mut pag = Paginator::new(
        "https://api.github.com/repos/acme/widgets/pulls/1/comments".to_string(),
    );
    let r = pag.apply_response(404, None, r#"{"message": "Not Found"}"#);
    assert!(matches!(
        r,
        Err(AnalyzerError::RemoteRequestFailed { status: 404 })
    ));
    assert_eq!(pag.items.len(), 0);
}
