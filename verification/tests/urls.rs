use pr_comment_analyzer::repo::PullRequestTarget;
use pr_comment_analyzer::urls::{
    auth_header_value, issue_comments_url, pr_comments_url, review_summaries_url, u32_dec_str,
    user_url,
};

fn target() -> PullRequestTarget {
    PullRequestTarget::new("acme".to_string(), "widgets".to_string(), 42)
}

#[test]
fn decimal_rendering_is_exact() {
    assert_eq!(u32_dec_str(0), "0");
    assert_eq!(u32_dec_str(7), "7");
    assert_eq!(u32_dec_str(10), "10");
    assert_eq!(u32_dec_str(10000), "10000");
    assert_eq!(u32_dec_str(u32::MAX), "4294967295");
}

#[test]
fn comment_endpoints_follow_the_wire_protocol() {
    let t = target();
    assert_eq!(
        pr_comments_url(&t),
        "https://api.github.com/repos/acme/widgets/pulls/42/comments"
    );
    assert_eq!(
        review_summaries_url(&t),
        "https://api.github.com/repos/acme/widgets/pulls/42/reviews"
    );
    assert_eq!(
        issue_comments_url(&t),
        "https://api.github.com/repos/acme/widgets/issues/42/comments"
    );
}

#[test]
fn user_endpoint_and_authorization_header() {
    assert_eq!(user_url(), "https://api.github.com/user");
    assert_eq!(auth_header_value("TOKEN123"), "token TOKEN123");
}
