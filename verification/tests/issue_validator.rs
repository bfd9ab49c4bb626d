use mdbook_section_validator::issue_validator::{issue_from_url, GithubIssueType, Issue};
use mdbook_section_validator::link::Link;

#[test]
fn issue_from_url_github_pr() {
    let url = Link::parse("https://github.com/rust-lang/mdBook/pull/1539").unwrap();

    assert_eq!(
        issue_from_url(&url),
        Issue::Github("rust-lang", "mdBook", "1539", GithubIssueType::PullRequest, &url)
    );
}

#[test]
fn issue_from_url_github_issue() {
    let url = Link::parse("https://github.com/rust-lang/mdBook/issues/1538").unwrap();

    assert_eq!(
        issue_from_url(&url),
        Issue::Github("rust-lang", "mdBook", "1538", GithubIssueType::Issue, &url)
    );
}

#[test]
fn issue_from_url_arbitrary_link() {
    let url = Link::parse("https://example.com").unwrap();

    assert_eq!(issue_from_url(&url), Issue::Link(&url));
}
