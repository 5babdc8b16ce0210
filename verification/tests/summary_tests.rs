use gh_dash::summary::build_review_summary;
use gh_dash::types::{GitHubReview, GitHubTeam, GitHubUser};

fn user(login: &str) -> GitHubUser {
    GitHubUser {
        login: login.to_string(),
        avatar_url: String::new(),
        id: 7,
    }
}

fn review(login: &str, state: &str) -> GitHubReview {
    GitHubReview {
        id: 2,
        user: user(login),
        state: state.to_string(),
        submitted_at: None,
    }
}

fn team(name: &str) -> GitHubTeam {
    GitHubTeam {
        name: name.to_string(),
        slug: name.to_string(),
    }
}

#[test]
fn summary_counts_all_states_in_fixed_order() {
    let reviews = vec![
        review("alice", "APPROVED"),
        review("bob", "CHANGES_REQUESTED"),
        review("carol", "COMMENTED"),
    ];
    let users = vec![user("dave")];
    let teams = vec![team("platform"), team("infra")];
    let s = build_review_summary(&reviews, &users, &teams);
    assert_eq!(s, "1 approved, 1 changes requested, 1 commented, 3 pending (2 teams)");
}

#[test]
fn summary_no_reviews() {
    let s = build_review_summary(&vec![], &vec![], &vec![]);
    assert_eq!(s, "No reviews");
}

#[test]
fn summary_sticky_comment_counts_as_approval() {
    let reviews = vec![review("bob", "APPROVED"), review("bob", "COMMENTED")];
    let s = build_review_summary(&reviews, &vec![], &vec![]);
    assert_eq!(s, "1 approved");
}

#[test]
fn summary_single_team_not_pluralized() {
    let s = build_review_summary(&vec![], &vec![], &vec![team("platform")]);
    assert_eq!(s, "1 pending (1 team)");
}

#[test]
fn summary_pending_without_teams_has_no_suffix() {
    let s = build_review_summary(&vec![], &vec![user("a"), user("b")], &vec![]);
    assert_eq!(s, "2 pending");
}

#[test]
fn summary_dismissed_only_renders_nothing() {
    let reviews = vec![review("bob", "DISMISSED")];
    let s = build_review_summary(&reviews, &vec![], &vec![]);
    assert_eq!(s, "No reviews");
}

#[test]
fn summary_keys_are_case_sensitive_logins() {
    // unlike the classifier, the summary keys people by the login as written
    let reviews = vec![review("Bob", "APPROVED"), review("bob", "APPROVED")];
    let s = build_review_summary(&reviews, &vec![], &vec![]);
    assert_eq!(s, "2 approved");
}

#[test]
fn summary_counts_latest_state_per_reviewer() {
    let reviews = vec![
        review("alice", "CHANGES_REQUESTED"),
        review("alice", "APPROVED"),
        review("bob", "APPROVED"),
    ];
    let s = build_review_summary(&reviews, &vec![], &vec![]);
    assert_eq!(s, "2 approved");
}
