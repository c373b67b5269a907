use pr_comment_analyzer::link::parse_next_link;

#[test]
fn typical_github_header_yields_next_url() {
    let h = "<https://api.github.com/repos/acme/widgets/pulls/1/comments?per_page=100&page=2>; rel=\"next\", <https://api.github.com/repos/acme/widgets/pulls/1/comments?per_page=100&page=9>; rel=\"last\"";
    assert_eq!(
        parse_next_link(h).as_deref(),
        Some("https://api.github.com/repos/acme/widgets/pulls/1/comments?per_page=100&page=2")
    );
}

#[test]
fn header_without_next_relation_yields_nothing() {
    let h = "<https://api.github.com/x?page=1>; rel=\"first\", <https://api.github.com/x?page=9>; rel=\"last\"";
    assert_eq!(parse_next_link(h), None);
}

#[test]
fn empty_header_yields_nothing() {
    assert_eq!(parse_next_link(""), None);
}

#[test]
fn relation_match_is_exact_not_substring() {
    let h = "<https://api.github.com/x?page=2>; rel=\"nextpage\"";
    assert_eq!(parse_next_link(h), None);
}

#[test]
fn segments_with_more_or_fewer_parts_are_skipped() {
    let h = "<https://a>; rel=\"next\"; extra, <https://b>, <https://c>; rel=\"next\"";
    assert_eq!(parse_next_link(h).as_deref(), Some("https://c"));
}

#[test]
fn whitespace_around_segments_is_tolerated() {
    let h = "  <https://a>; rel=\"last\" ,  <https://b> ;  rel=\"next\"  ";
    assert_eq!(parse_next_link(h).as_deref(), Some("https://b"));
}

#[test]
fn first_next_segment_wins() {
    let h = "<https://a>; rel=\"next\", <https://b>; rel=\"next\"";
    assert_eq!(parse_next_link(h).as_deref(), Some("https://a"));
}
