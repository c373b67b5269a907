use pr_comment_analyzer::records::CommentRecord;
use pr_comment_analyzer::report::{aggregate_pr, build_report, PrCommentCounts};

fn rec(author: Option<&str>) -> CommentRecord {
    CommentRecord {
        author: author.map(|a| a.to_string()),
    }
}

#[test]
fn categories_are_counted_and_summed_per_pr() {
    // One PR whose three category endpoints return 2, 1 and 0 matching
    // records for the authenticated login "bob".
    let pr_comments = vec![rec(Some("bob")), rec(Some("alice")), rec(Some("bob"))];
    let review_comments = vec![rec(Some("bob")), rec(None)];
    let issue_comments = vec![rec(Some("alice"))];
    let counts = aggregate_pr(7, &pr_comments, &review_comments, &issue_comments, "bob");
    assert_eq!(counts.pr_number, 7);
    assert_eq!(counts.pr_comments, 2);
    assert_eq!(counts.review_comments, 1);
    assert_eq!(counts.issue_comments, 0);
    assert_eq!(counts.total(), 3);
}

#[test]
fn report_adds_manual_count_and_computes_ratio() {
    // Per-PR total 3, additional 2, minutes 50: total 5, ratio 10.00.
    let per_pr = vec![PrCommentCounts {
        pr_number: 7,
        pr_comments: 2,
        review_comments: 1,
        issue_comments: 0,
    }];
    let report = build_report(&per_pr, 2, 50);
    assert_eq!(report.total_comments, 5);
    assert_eq!(report.additional, 2);
    assert_eq!(report.minutes, 50);
    assert_eq!(report.minutes_per_comment_hundredths, Some(1000));
    // The fixed-point ratio agrees with the floating-point one to two
    // decimal places.
    let ratio = report.minutes as f64 / report.total_comments as f64;
    assert!((ratio - 10.00f64).abs() < 0.005);
}

#[test]
fn zero_comments_yield_no_ratio() {
    let per_pr: Vec<PrCommentCounts> = Vec::new();
    let report = build_report(&per_pr, 0, 50);
    assert_eq!(report.total_comments, 0);
    assert_eq!(report.minutes_per_comment_hundredths, None);
}

#[test]
fn ratio_is_rounded_down_to_hundredths() {
    let per_pr = vec![PrCommentCounts {
        pr_number: 1,
        pr_comments: 3,
        review_comments: 0,
        issue_comments: 0,
    }];
    let report = build_report(&per_pr, 0, 10);
    // 10 / 3 = 3.3333... minutes per comment.
    assert_eq!(report.minutes_per_comment_hundredths, Some(333));
}

#[test]
fn totals_sum_across_pull_requests() {
    let per_pr = vec![
        PrCommentCounts {
            pr_number: 1,
            pr_comments: 1,
            review_comments: 2,
            issue_comments: 3,
        },
        PrCommentCounts {
            pr_number: 2,
            pr_comments: 0,
            review_comments: 0,
            issue_comments: 4,
        },
    ];
    let report = build_report(&per_pr, 0, 100);
    assert_eq!(report.total_comments, 10);
    assert_eq!(report.minutes_per_comment_hundredths, Some(1000));
}
