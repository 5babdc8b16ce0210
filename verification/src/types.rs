//! Record types for the hosting API's responses and for the dashboard
//! snapshot handed to the caller.

use vstd::prelude::*;

verus! {

/// A user identity as returned by the hosting API.
#[derive(Debug, Clone)]
pub struct GitHubUser {
    pub login: String,
    pub avatar_url: String,
    pub id: u64,
}

/// The identity resolved for the supplied credential.
#[derive(Debug, Clone)]
pub struct GitHubAuthenticatedUser {
    pub login: String,
    pub avatar_url: String,
    pub id: u64,
}

/// One submitted review event.
#[derive(Debug, Clone)]
pub struct GitHubReview {
    pub id: u64,
    pub user: GitHubUser,
    pub state: String,
    pub submitted_at: Option<String>,
}

/// A team whose review is outstanding.
#[derive(Debug, Clone)]
pub struct GitHubTeam {
    pub name: String,
    pub slug: String,
}

/// The people and teams whose review is currently outstanding.
#[derive(Debug, Clone)]
pub struct GitHubRequestedReviewersResponse {
    pub users: Vec<GitHubUser>,
    pub teams: Vec<GitHubTeam>,
}

/// The pull-request reference attached to a search result.
#[derive(Debug, Clone)]
pub struct GitHubPullRequest {
    pub url: String,
    pub html_url: String,
}

/// A label attached to an item.
#[derive(Debug, Clone)]
pub struct GitHubLabel {
    pub name: String,
    pub color: String,
}

/// A raw search-result candidate.
#[derive(Debug, Clone)]
pub struct GitHubSearchItem {
    pub id: u64,
    pub number: u64,
    pub title: String,
    pub html_url: String,
    pub state: String,
    pub created_at: String,
    pub updated_at: String,
    pub draft: bool,
    pub user: GitHubUser,
    pub repository_url: String,
    pub pull_request: Option<GitHubPullRequest>,
    pub labels: Vec<GitHubLabel>,
}

/// One page of search results.
#[derive(Debug)]
pub struct GitHubSearchResponse {
    pub total_count: u64,
    pub incomplete_results: bool,
    pub items: Vec<GitHubSearchItem>,
}

/// Supplementary mergeability data for a pull request.
#[derive(Debug, Clone)]
pub struct GitHubPullDetail {
    pub mergeable: Option<bool>,
    pub mergeable_state: Option<String>,
}

/// Whose action is required next on an item.
#[derive(Debug, Clone, Copy, PartialEq, Eq, Structural)]
pub enum TurnStatus {
    MyTurn,
    TheirTurn,
}

/// The outcome of one evaluated decision step.
#[derive(Debug, Clone, Copy, PartialEq, Eq, Structural)]
pub enum CheckResult {
    MyTurn,
    TheirTurn,
    Skip,
}

/// One evaluated decision step: its label, a rendered description of what
/// was found, and its outcome.
#[derive(Debug, Clone)]
pub struct TurnDebugCheck {
    pub label: String,
    pub value: String,
    pub result: CheckResult,
}

/// The ordered trace of every decision step evaluated, plus the label of
/// the step that decided the verdict.
#[derive(Debug, Clone)]
pub struct TurnDebugInfo {
    pub section: String,
    pub checks: Vec<TurnDebugCheck>,
    pub deciding_check: String,
}

/// The author shown on a dashboard item.
#[derive(Debug, Clone)]
pub struct DashboardAuthor {
    pub login: String,
    pub avatar_url: String,
}

/// A label shown on a dashboard item.
#[derive(Debug, Clone)]
pub struct DashboardLabel {
    pub name: String,
    pub color: String,
}

/// A fully enriched dashboard item.
#[derive(Debug, Clone)]
pub struct DashboardPR {
    pub id: u64,
    pub number: u64,
    pub title: String,
    pub url: String,
    pub repo: String,
    pub author: DashboardAuthor,
    pub turn_status: TurnStatus,
    pub turn_debug_info: Option<TurnDebugInfo>,
    pub is_draft: bool,
    pub created_at: String,
    pub updated_at: String,
    pub labels: Vec<DashboardLabel>,
    pub review_summary: String,
}

/// The complete snapshot returned by one refresh.
#[derive(Debug, Clone)]
pub struct DashboardResponse {
    pub my_prs: Vec<DashboardPR>,
    pub review_requests: Vec<DashboardPR>,
    pub github_username: String,
    pub fetched_at: String,
}

/// Which of the two item categories an item is classified under.
#[derive(Debug, Clone, Copy, PartialEq, Eq, Structural)]
pub enum Section {
    MyPrs,
    ReviewRequests,
}

/// A verdict together with its auditable trace.
#[derive(Debug, Clone)]
pub struct TurnResult {
    pub turn_status: TurnStatus,
    pub debug_info: TurnDebugInfo,
}

/// A deduplicated review candidate, flagged with whether it surfaced
/// through the review-requested query.
#[derive(Debug, Clone)]
pub struct ReviewCandidate {
    pub item: GitHubSearchItem,
    pub is_review_requested: bool,
}

} // verus!
