use gh_dash::aggregate::{assemble_dashboard, collect_enriched, filter_pull_requests,
    merge_review_items, sort_prs};
use gh_dash::errors::FetchError;
use gh_dash::types::{DashboardAuthor, DashboardPR, GitHubPullRequest, GitHubSearchItem,
    GitHubUser, TurnStatus};

fn user(login: &str) -> GitHubUser {
    GitHubUser {
        login: login.to_string(),
        avatar_url: String::new(),
        id: 3,
    }
}

fn item(id: u64, title: &str, author: &str) -> GitHubSearchItem {
    GitHubSearchItem {
        id,
        number: id,
        title: title.to_string(),
        html_url: format!("https://example.invalid/{}", id),
        state: "open".to_string(),
        created_at: "2024-01-01T00:00:00Z".to_string(),
        updated_at: "2024-01-02T00:00:00Z".to_string(),
        draft: false,
        user: user(author),
        repository_url: "https://api.github.com/repos/octo/repo".to_string(),
        pull_request: Some(GitHubPullRequest {
            url: "https://api.github.com/repos/octo/repo/pulls/1".to_string(),
            html_url: "https://example.invalid/pull/1".to_string(),
        }),
        labels: vec![],
    }
}

fn pr(id: u64, status: TurnStatus, updated: &str) -> DashboardPR {
    DashboardPR {
        id,
        number: id,
        title: String::new(),
        url: String::new(),
        repo: String::new(),
        author: DashboardAuthor {
            login: "a".to_string(),
            avatar_url: String::new(),
        },
        turn_status: status,
        turn_debug_info: None,
        is_draft: false,
        created_at: String::new(),
        updated_at: updated.to_string(),
        labels: vec![],
        review_summary: String::new(),
    }
}

#[test]
fn dedup_keeps_one_copy_with_review_requested_flag() {
    let rr = vec![item(42, "from review-requested", "alice")];
    let rb = vec![item(42, "from reviewed-by", "alice"), item(7, "other", "bob")];
    let out = merge_review_items(rr, rb, "me");
    assert_eq!(out.len(), 2);
    let copies: Vec<_> = out.iter().filter(|c| c.item.id == 42).collect();
    assert_eq!(copies.len(), 1);
    // first occurrence wins: the review-requested copy survives
    assert_eq!(copies[0].item.title, "from review-requested");
    assert!(copies[0].is_review_requested);
    let other: Vec<_> = out.iter().filter(|c| c.item.id == 7).collect();
    assert!(!other[0].is_review_requested);
}

#[test]
fn self_authored_items_are_excluded() {
    let rr = vec![item(1, "mine", "Me")];
    let rb = vec![item(2, "reviewed", "me"), item(3, "theirs", "alice")];
    let out = merge_review_items(rr, rb, "ME");
    assert_eq!(out.len(), 1);
    assert_eq!(out[0].item.id, 3);
}

#[test]
fn merge_preserves_first_occurrence_order() {
    let rr = vec![item(1, "a", "x"), item(2, "b", "y")];
    let rb = vec![item(3, "c", "z"), item(1, "dup", "x")];
    let out = merge_review_items(rr, rb, "me");
    let ids: Vec<u64> = out.iter().map(|c| c.item.id).collect();
    assert_eq!(ids, vec![1, 2, 3]);
}

#[test]
fn my_turn_sorts_before_their_turn_despite_age() {
    let mut prs = vec![
        pr(1, TurnStatus::TheirTurn, "2024-06-01T00:00:00Z"),
        pr(2, TurnStatus::MyTurn, "2024-01-01T00:00:00Z"),
    ];
    sort_prs(&mut prs);
    assert_eq!(prs[0].id, 2);
    assert_eq!(prs[1].id, 1);
}

#[test]
fn equal_status_sorts_by_update_descending() {
    let mut prs = vec![
        pr(1, TurnStatus::MyTurn, "2024-01-01T00:00:00Z"),
        pr(2, TurnStatus::MyTurn, "2024-06-01T00:00:00Z"),
        pr(3, TurnStatus::MyTurn, "2024-03-01T00:00:00Z"),
    ];
    sort_prs(&mut prs);
    let ids: Vec<u64> = prs.iter().map(|p| p.id).collect();
    assert_eq!(ids, vec![2, 3, 1]);
}

#[test]
fn collect_enriched_returns_first_error_and_no_partial_list() {
    let results: Vec<Result<u64, FetchError>> = vec![
        Ok(1),
        Err(FetchError::Parse {
            reference: "first".to_string(),
        }),
        Ok(3),
        Err(FetchError::Parse {
            reference: "second".to_string(),
        }),
    ];
    match collect_enriched(results) {
        Ok(_) => panic!("expected the refresh to fail as a unit"),
        Err(FetchError::Parse { reference }) => assert_eq!(reference, "first"),
        Err(_) => panic!("unexpected error variant"),
    }
}

#[test]
fn collect_enriched_keeps_all_successes_in_order() {
    let results: Vec<Result<u64, FetchError>> = vec![Ok(1), Ok(2), Ok(3)];
    assert_eq!(collect_enriched(results).unwrap(), vec![1, 2, 3]);
}

#[test]
fn companion_issues_without_pull_reference_are_dropped() {
    let mut no_pull = item(9, "issue", "alice");
    no_pull.pull_request = None;
    let items = vec![item(8, "pull", "alice"), no_pull];
    let out = filter_pull_requests(items);
    assert_eq!(out.len(), 1);
    assert_eq!(out[0].id, 8);
}

#[test]
fn assemble_keeps_fields() {
    let r = assemble_dashboard(
        vec![pr(1, TurnStatus::MyTurn, "2024-01-01T00:00:00Z")],
        vec![],
        "me".to_string(),
        "2024-03-01T00:00:00Z".to_string(),
    );
    assert_eq!(r.my_prs.len(), 1);
    assert_eq!(r.review_requests.len(), 0);
    assert_eq!(r.github_username, "me");
    assert_eq!(r.fetched_at, "2024-03-01T00:00:00Z");
}
