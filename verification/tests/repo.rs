use pr_comment_analyzer::errors::AnalyzerError;
use pr_comment_analyzer::repo::{normalize_git_remote, parse_pr_number, parse_repository_url};

#[test]
fn slug_resolves_to_owner_and_repo() {
    let (owner, repo) = parse_repository_url("acme/widgets").unwrap();
    assert_eq!(owner, "acme");
    assert_eq!(repo, "widgets");
}

#[test]
fn full_url_resolves_to_owner_and_repo() {
    let (owner, repo) = parse_repository_url("https://github.com/acme/widgets").unwrap();
    assert_eq!(owner, "acme");
    assert_eq!(repo, "widgets");
}

#[test]
fn full_url_with_trailing_slash_resolves() {
    let (owner, repo) = parse_repository_url("https://github.com/acme/widgets/").unwrap();
    assert_eq!(owner, "acme");
    assert_eq!(repo, "widgets");
}

#[test]
fn argument_without_slash_is_rejected() {
    assert!(matches!(
        parse_repository_url("acmewidgets"),
        Err(AnalyzerError::RepositoryResolutionFailed)
    ));
}

#[test]
fn slug_with_three_parts_is_rejected() {
    assert!(matches!(
        parse_repository_url("a/b/c"),
        Err(AnalyzerError::RepositoryResolutionFailed)
    ));
}

#[test]
fn url_of_another_host_is_rejected() {
    assert!(matches!(
        parse_repository_url("https://gitlab.com/acme/widgets"),
        Err(AnalyzerError::RepositoryResolutionFailed)
    ));
}

#[test]
fn ssh_remote_normalizes_to_slug() {
    let slug = normalize_git_remote("git@github.com:acme/widgets.git\n").unwrap();
    assert_eq!(slug, "acme/widgets");
}

#[test]
fn https_remote_normalizes_to_slug() {
    let slug = normalize_git_remote("https://github.com/acme/widgets.git").unwrap();
    assert_eq!(slug, "acme/widgets");
}

#[test]
fn https_remote_without_git_suffix_normalizes() {
    let slug = normalize_git_remote("https://github.com/acme/widgets\n").unwrap();
    assert_eq!(slug, "acme/widgets");
}

#[test]
fn unsupported_remote_is_rejected() {
    assert!(matches!(
        normalize_git_remote("ssh://git@bitbucket.org/acme/widgets.git"),
        Err(AnalyzerError::RepositoryResolutionFailed)
    ));
}

#[test]
fn empty_remote_is_rejected() {
    assert!(matches!(
        normalize_git_remote("  \n"),
        Err(AnalyzerError::RepositoryResolutionFailed)
    ));
}

#[test]
fn decimal_pr_number_parses() {
    assert_eq!(parse_pr_number("12").unwrap(), 12);
}

#[test]
fn largest_pr_number_parses() {
    assert_eq!(parse_pr_number("4294967295").unwrap(), u32::MAX);
}

#[test]
fn zero_pr_number_is_rejected() {
    assert!(matches!(
        parse_pr_number("0"),
        Err(AnalyzerError::InvalidTargetFormat)
    ));
}

#[test]
fn non_numeric_pr_number_is_rejected() {
    assert!(matches!(
        parse_pr_number("12a"),
        Err(AnalyzerError::InvalidTargetFormat)
    ));
}

#[test]
fn empty_pr_number_is_rejected() {
    assert!(matches!(
        parse_pr_number(""),
        Err(AnalyzerError::InvalidTargetFormat)
    ));
}

#[test]
fn overflowing_pr_number_is_rejected() {
    assert!(matches!(
        parse_pr_number("4294967296"),
        Err(AnalyzerError::InvalidTargetFormat)
    ));
    assert!(matches!(
        parse_pr_number("99999999999999999999"),
        Err(AnalyzerError::InvalidTargetFormat)
    ));
}
