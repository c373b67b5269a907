use pr_comment_analyzer::records::{count_user_comments, CommentRecord};

fn rec(author: Option<&str>) -> CommentRecord {
    CommentRecord {
        author: author.map(|a| a.to_string()),
    }
}

#[test]
fn counts_exactly_the_matching_records() {
    let records = vec![
        rec(Some("alice")),
        rec(Some("bob")),
        rec(Some("alice")),
        rec(None),
        rec(Some("carol")),
        rec(Some("alice")),
    ];
    assert_eq!(count_user_comments(&records, "alice"), 3);
    assert_eq!(count_user_comments(&records, "bob"), 1);
    assert_eq!(count_user_comments(&records, "dave"), 0);
}

#[test]
fn match_is_case_sensitive() {
    let records = vec![rec(Some("Alice")), rec(Some("alice"))];
    assert_eq!(count_user_comments(&records, "alice"), 1);
}

#[test]
fn records_without_author_never_match() {
    let records = vec![rec(None), rec(None), rec(None)];
    assert_eq!(count_user_comments(&records, "alice"), 0);
}

#[test]
fn empty_input_counts_zero() {
    let records: Vec<CommentRecord> = Vec::new();
    assert_eq!(count_user_comments(&records, "alice"), 0);
}
