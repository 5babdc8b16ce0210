use gh_dash::classify::{determine_my_pr_turn, determine_review_request_turn, is_submitted_state};
use gh_dash::types::{CheckResult, GitHubReview, GitHubTeam, GitHubUser, TurnStatus};

fn user(login: &str) -> GitHubUser {
    GitHubUser {
        login: login.to_string(),
        avatar_url: format!("https://example.invalid/{}.png", login),
        id: 1,
    }
}

fn review(login: &str, state: &str) -> GitHubReview {
    GitHubReview {
        id: 1,
        user: user(login),
        state: state.to_string(),
        submitted_at: Some("2024-01-01T00:00:00Z".to_string()),
    }
}

fn team(name: &str) -> GitHubTeam {
    GitHubTeam {
        name: name.to_string(),
        slug: name.to_lowercase(),
    }
}

#[test]
fn submitted_states_recognized() {
    assert!(is_submitted_state("APPROVED"));
    assert!(is_submitted_state("CHANGES_REQUESTED"));
    assert!(is_submitted_state("COMMENTED"));
    assert!(is_submitted_state("DISMISSED"));
    assert!(!is_submitted_state("PENDING"));
    assert!(!is_submitted_state("approved"));
    assert!(!is_submitted_state(""));
}

#[test]
fn no_submissions_is_their_turn() {
    let r = determine_my_pr_turn(&vec![], &vec![], "octocat", None);
    assert_eq!(r.turn_status, TurnStatus::TheirTurn);
    assert_eq!(r.debug_info.deciding_check, "No reviews submitted yet");
    assert_eq!(r.debug_info.section, "my-prs");
    assert_eq!(r.debug_info.checks.len(), 1);
    assert_eq!(r.debug_info.checks[0].label, "No reviews submitted yet");
    assert_eq!(
        r.debug_info.checks[0].value,
        "Nobody has submitted feedback"
    );
    assert!(matches!(r.debug_info.checks[0].result, CheckResult::TheirTurn));
}

#[test]
fn pending_reviews_do_not_count() {
    let reviews = vec![review("alice", "PENDING")];
    let r = determine_my_pr_turn(&reviews, &vec![], "octocat", Some("clean"));
    assert_eq!(r.turn_status, TurnStatus::TheirTurn);
    assert_eq!(r.debug_info.deciding_check, "No reviews submitted yet");
}

#[test]
fn author_own_reviews_excluded_case_insensitively() {
    // the author's own feedback, in different case, must not count
    let reviews = vec![review("OCTOCAT", "APPROVED")];
    let r = determine_my_pr_turn(&reviews, &vec![], "Octocat", None);
    assert_eq!(r.turn_status, TurnStatus::TheirTurn);
    assert_eq!(r.debug_info.deciding_check, "No reviews submitted yet");
}

#[test]
fn re_request_short_circuits_clean_mergeable() {
    let reviews = vec![review("alice", "APPROVED")];
    let requested = vec![user("Alice")];
    let r = determine_my_pr_turn(&reviews, &requested, "octocat", Some("clean"));
    assert_eq!(r.turn_status, TurnStatus::TheirTurn);
    assert_eq!(r.debug_info.deciding_check, "All submitters re-requested");
    assert_eq!(r.debug_info.checks.len(), 2);
    assert_eq!(r.debug_info.checks[0].value, "1 submitter(s): alice");
    assert!(matches!(r.debug_info.checks[0].result, CheckResult::Skip));
    assert_eq!(
        r.debug_info.checks[1].value,
        "All submitters re-requested: alice"
    );
}

#[test]
fn sticky_comment_keeps_approval() {
    // an approval followed by a comment stays an approval
    let reviews = vec![review("bob", "APPROVED"), review("bob", "COMMENTED")];
    let r = determine_my_pr_turn(&reviews, &vec![], "octocat", None);
    // no change request surfaces, so the mergeability fallback decides
    assert_eq!(r.debug_info.checks[2].value, "No changes requested (bob: APPROVED)");
    assert_eq!(r.turn_status, TurnStatus::MyTurn);
    assert_eq!(r.debug_info.deciding_check, "Mergeable state: null");
}

#[test]
fn comment_overwrites_comment_and_dismissal() {
    let reviews = vec![
        review("bob", "DISMISSED"),
        review("bob", "COMMENTED"),
        review("carol", "COMMENTED"),
        review("carol", "COMMENTED"),
    ];
    let r = determine_my_pr_turn(&reviews, &vec![], "octocat", None);
    assert_eq!(
        r.debug_info.checks[2].value,
        "No changes requested (bob: COMMENTED, carol: COMMENTED)"
    );
}

#[test]
fn changes_requested_overrides_mergeable_state() {
    let reviews = vec![review("alice", "APPROVED"), review("bob", "CHANGES_REQUESTED")];
    for mergeable in [Some("clean"), Some("blocked"), Some("dirty"), None] {
        let r = determine_my_pr_turn(&reviews, &vec![], "octocat", mergeable);
        assert_eq!(r.turn_status, TurnStatus::MyTurn);
        assert_eq!(r.debug_info.deciding_check, "Changes requested");
        assert_eq!(r.debug_info.checks.len(), 3);
        assert_eq!(
            r.debug_info.checks[2].value,
            "Changes requested found (alice: APPROVED, bob: CHANGES_REQUESTED)"
        );
    }
}

#[test]
fn changes_requested_sticky_against_later_comment() {
    let reviews = vec![review("bob", "CHANGES_REQUESTED"), review("bob", "COMMENTED")];
    let r = determine_my_pr_turn(&reviews, &vec![], "octocat", Some("clean"));
    assert_eq!(r.turn_status, TurnStatus::MyTurn);
    assert_eq!(r.debug_info.deciding_check, "Changes requested");
}

#[test]
fn approval_overwrites_changes_requested() {
    let reviews = vec![review("bob", "CHANGES_REQUESTED"), review("bob", "APPROVED")];
    let r = determine_my_pr_turn(&reviews, &vec![], "octocat", Some("blocked"));
    assert_eq!(r.turn_status, TurnStatus::TheirTurn);
    assert_eq!(r.debug_info.deciding_check, "Mergeable state: blocked");
}

#[test]
fn mergeability_fallback_matrix() {
    let reviews = vec![review("alice", "APPROVED")];
    let cases: [(Option<&str>, TurnStatus, &str); 6] = [
        (Some("clean"), TurnStatus::MyTurn, "Ready to merge — all branch protection met"),
        (
            Some("blocked"),
            TurnStatus::TheirTurn,
            "Insufficient approvals / CODEOWNERS not satisfied",
        ),
        (Some("dirty"), TurnStatus::MyTurn, "Merge conflicts — author needs to resolve"),
        (Some("unstable"), TurnStatus::MyTurn, "Failing checks — author should investigate"),
        (Some("behind"), TurnStatus::MyTurn, "Unknown/null — conservative fallback"),
        (None, TurnStatus::MyTurn, "Unknown/null — conservative fallback"),
    ];
    for (mergeable, expected, desc) in cases {
        let r = determine_my_pr_turn(&reviews, &vec![], "octocat", mergeable);
        assert_eq!(r.turn_status, expected);
        let label = format!("Mergeable state: {}", mergeable.unwrap_or("null"));
        assert_eq!(r.debug_info.deciding_check, label);
        let last = r.debug_info.checks.last().unwrap();
        assert_eq!(last.label, label);
        assert_eq!(last.value, desc);
    }
}

#[test]
fn review_requested_individually_is_my_turn() {
    let r = determine_review_request_turn(
        &vec![],
        &vec![user("Me"), user("other")],
        &vec![],
        "me",
        true,
    );
    assert_eq!(r.turn_status, TurnStatus::MyTurn);
    assert_eq!(r.debug_info.deciding_check, "My review requested");
    assert_eq!(r.debug_info.section, "review-requests");
    assert_eq!(r.debug_info.checks.len(), 1);
    assert_eq!(
        r.debug_info.checks[0].value,
        "Your review is currently requested (pending: Me, other)"
    );
}

#[test]
fn review_request_via_team() {
    let r = determine_review_request_turn(
        &vec![],
        &vec![],
        &vec![team("platform")],
        "me",
        true,
    );
    assert_eq!(r.turn_status, TurnStatus::MyTurn);
    assert_eq!(r.debug_info.deciding_check, "My review requested (via team)");
    assert_eq!(r.debug_info.checks[1].value, "Requested via team (teams: platform)");
}

#[test]
fn reviewed_by_only_is_their_turn_despite_teams() {
    let r = determine_review_request_turn(
        &vec![],
        &vec![],
        &vec![team("platform")],
        "me",
        false,
    );
    assert_eq!(r.turn_status, TurnStatus::TheirTurn);
    assert_eq!(r.debug_info.deciding_check, "My review requested (via team)");
    assert_eq!(
        r.debug_info.checks[1].value,
        "PR found via reviewed-by search, not review-requested"
    );
}

#[test]
fn no_team_requests_is_their_turn() {
    let r = determine_review_request_turn(&vec![], &vec![user("other")], &vec![], "me", true);
    assert_eq!(r.turn_status, TurnStatus::TheirTurn);
    assert_eq!(
        r.debug_info.checks[1].value,
        "No team review requests"
    );
}

#[test]
fn submitted_reviews_ignored_in_review_request_branch() {
    // the reviews input takes no part in this branch
    let reviews = vec![review("me", "CHANGES_REQUESTED")];
    let r = determine_review_request_turn(&reviews, &vec![], &vec![], "me", true);
    assert_eq!(r.turn_status, TurnStatus::TheirTurn);
}
