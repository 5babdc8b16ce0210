use gh_dash::config::{default_poll_interval, AppConfig};
use gh_dash::enrich::{finish_enrich, parse_repo, split_owner_repo};
use gh_dash::strutil::parse_u64;
use gh_dash::types::{GitHubLabel, GitHubPullRequest, GitHubRequestedReviewersResponse,
    GitHubReview, GitHubSearchItem, GitHubUser, Section, TurnStatus};
use gh_dash::urls::{bearer_value, my_prs_search_url, requested_reviewers_url,
    review_requests_search_url, reviewed_by_search_url, reviews_url, user_url};

fn user(login: &str) -> GitHubUser {
    GitHubUser {
        login: login.to_string(),
        avatar_url: format!("https://example.invalid/{}.png", login),
        id: 5,
    }
}

#[test]
fn parse_repo_strips_through_marker() {
    assert_eq!(
        parse_repo("https://api.github.com/repos/octocat/hello"),
        "octocat/hello"
    );
}

#[test]
fn parse_repo_without_marker_returns_input() {
    assert_eq!(parse_repo("octocat/hello"), "octocat/hello");
    assert_eq!(parse_repo(""), "");
}

#[test]
fn split_owner_repo_at_first_slash() {
    assert_eq!(
        split_owner_repo("octocat/hello"),
        Some(("octocat".to_string(), "hello".to_string()))
    );
    assert_eq!(
        split_owner_repo("a/b/c"),
        Some(("a".to_string(), "b/c".to_string()))
    );
    assert_eq!(split_owner_repo("noslash"), None);
}

#[test]
fn search_urls_follow_the_query_templates() {
    assert_eq!(
        my_prs_search_url("me"),
        "https://api.github.com/search/issues?q=author%3Ame%20type%3Apr%20state%3Aopen%20sort%3Aupdated&per_page=25"
    );
    assert_eq!(
        review_requests_search_url("me"),
        "https://api.github.com/search/issues?q=review-requested%3Ame%20type%3Apr%20state%3Aopen%20sort%3Aupdated&per_page=25"
    );
    assert_eq!(
        reviewed_by_search_url("me"),
        "https://api.github.com/search/issues?q=reviewed-by%3Ame%20type%3Apr%20state%3Aopen%20sort%3Aupdated&per_page=25"
    );
}

#[test]
fn endpoint_urls() {
    assert_eq!(user_url(), "https://api.github.com/user");
    assert_eq!(
        reviews_url("octo", "repo", 17),
        "https://api.github.com/repos/octo/repo/pulls/17/reviews"
    );
    assert_eq!(
        requested_reviewers_url("octo", "repo", 17),
        "https://api.github.com/repos/octo/repo/pulls/17/requested_reviewers"
    );
    assert_eq!(bearer_value("token123"), "Bearer token123");
}

#[test]
fn parse_u64_accepts_digits_only() {
    assert_eq!(parse_u64("0"), Some(0));
    assert_eq!(parse_u64("3600"), Some(3600));
    assert_eq!(parse_u64(""), None);
    assert_eq!(parse_u64("12a"), None);
    assert_eq!(parse_u64("-5"), None);
    assert_eq!(parse_u64("18446744073709551615"), Some(u64::MAX));
    assert_eq!(parse_u64("18446744073709551616"), None);
}

#[test]
fn config_defaults() {
    assert_eq!(default_poll_interval(), 60000);
    let c = AppConfig::default();
    assert_eq!(c.github_pat, "");
    assert_eq!(c.poll_interval_ms, 60000);
}

#[test]
fn finish_enrich_builds_the_record() {
    let item = GitHubSearchItem {
        id: 11,
        number: 4,
        title: "Add parser".to_string(),
        html_url: "https://example.invalid/pull/4".to_string(),
        state: "open".to_string(),
        created_at: "2024-01-01T00:00:00Z".to_string(),
        updated_at: "2024-01-02T00:00:00Z".to_string(),
        draft: true,
        user: user("alice"),
        repository_url: "https://api.github.com/repos/octo/repo".to_string(),
        pull_request: Some(GitHubPullRequest {
            url: "https://api.github.com/repos/octo/repo/pulls/4".to_string(),
            html_url: "https://example.invalid/pull/4".to_string(),
        }),
        labels: vec![GitHubLabel {
            name: "bug".to_string(),
            color: "ff0000".to_string(),
        }],
    };
    let reviews = vec![GitHubReview {
        id: 1,
        user: user("bob"),
        state: "CHANGES_REQUESTED".to_string(),
        submitted_at: None,
    }];
    let rr_data = GitHubRequestedReviewersResponse {
        users: vec![],
        teams: vec![],
    };
    let r = finish_enrich(
        &item,
        "octo/repo",
        Section::MyPrs,
        "alice",
        false,
        reviews,
        rr_data,
        None,
    )
    .unwrap();
    assert_eq!(r.id, 11);
    assert_eq!(r.number, 4);
    assert_eq!(r.title, "Add parser");
    assert_eq!(r.url, "https://example.invalid/pull/4");
    assert_eq!(r.repo, "octo/repo");
    assert_eq!(r.author.login, "alice");
    assert!(r.is_draft);
    assert_eq!(r.labels.len(), 1);
    assert_eq!(r.labels[0].name, "bug");
    assert_eq!(r.labels[0].color, "ff0000");
    assert_eq!(r.turn_status, TurnStatus::MyTurn);
    let info = r.turn_debug_info.unwrap();
    assert_eq!(info.section, "my-prs");
    assert_eq!(info.deciding_check, "Changes requested");
    assert_eq!(r.review_summary, "1 changes requested");
}

#[test]
fn finish_enrich_review_request_branch() {
    let item = GitHubSearchItem {
        id: 12,
        number: 5,
        title: "Fix build".to_string(),
        html_url: "https://example.invalid/pull/5".to_string(),
        state: "open".to_string(),
        created_at: "2024-01-01T00:00:00Z".to_string(),
        updated_at: "2024-01-02T00:00:00Z".to_string(),
        draft: false,
        user: user("bob"),
        repository_url: "https://api.github.com/repos/octo/repo".to_string(),
        pull_request: None,
        labels: vec![],
    };
    let rr_data = GitHubRequestedReviewersResponse {
        users: vec![user("me")],
        teams: vec![],
    };
    let r = finish_enrich(
        &item,
        "octo/repo",
        Section::ReviewRequests,
        "me",
        true,
        vec![],
        rr_data,
        None,
    )
    .unwrap();
    assert_eq!(r.turn_status, TurnStatus::MyTurn);
    let info = r.turn_debug_info.unwrap();
    assert_eq!(info.section, "review-requests");
    assert_eq!(info.deciding_check, "My review requested");
    assert_eq!(r.review_summary, "1 pending");
}
