//! Per-item enrichment: parsing the owning-repository reference and
//! assembling the enriched dashboard record from the fetched reviews,
//! outstanding review requests and mergeability detail.

use vstd::prelude::*;

use crate::classify::{determine_my_pr_turn, determine_review_request_turn, my_pr_checks,
    my_pr_deciding, my_pr_verdict, review_request_checks, review_request_deciding,
    review_request_verdict};
use crate::errors::FetchError;
use crate::strutil::lower_of;
use crate::summary::{build_review_summary, review_summary_spec};
use crate::types::{CheckResult, DashboardAuthor, DashboardLabel, DashboardPR, GitHubPullDetail,
    GitHubRequestedReviewersResponse, GitHubReview, GitHubSearchItem, Section, TurnDebugCheck,
    TurnStatus};

verus! {

/// The repository path marker occurs at this position.
pub open spec fn repos_marker_at(s: Seq<char>, i: int) -> bool {
    0 <= i && i + 6 <= s.len() && s[i] == 'r' && s[i + 1] == 'e' && s[i + 2] == 'p' && s[i + 3]
        == 'o' && s[i + 4] == 's' && s[i + 5] == '/'
}

/// Strips everything up to and including the first repository path
/// marker; a reference without one is returned whole.
pub fn parse_repo(repository_url: &str) -> (r: String)
    ensures
        (forall|i: int| !repos_marker_at(repository_url@, i)) ==> r@ == repository_url@,
        (exists|i: int| repos_marker_at(repository_url@, i)) ==> exists|i: int|
            repos_marker_at(repository_url@, i) && (forall|j: int|
                0 <= j < i ==> !repos_marker_at(repository_url@, j)) && r@ == repository_url@.skip(
                i + 6,
            ),
{
    let len = repository_url.unicode_len();
    if len < 6 {
        assert(forall|i: int| !repos_marker_at(repository_url@, i));
        return repository_url.to_owned();
    }
    let mut i: usize = 0;
    while i <= len - 6
        invariant
            6 <= len == repository_url@.len(),
            i <= len - 6 + 1,
            forall|j: int| 0 <= j < i ==> !repos_marker_at(repository_url@, j),
        decreases len - i,
    {
        if repository_url.get_char(i) == 'r' && repository_url.get_char(i + 1) == 'e'
            && repository_url.get_char(i + 2) == 'p' && repository_url.get_char(i + 3) == 'o'
            && repository_url.get_char(i + 4) == 's' && repository_url.get_char(i + 5) == '/' {
            assert(repos_marker_at(repository_url@, i as int));
            let rest = repository_url.substring_char(i + 6, len);
            let r = rest.to_owned();
            proof {
                assert(r@ =~= repository_url@.skip(i + 6));
            }
            return r;
        }
        i += 1;
    }
    assert(forall|j: int| !repos_marker_at(repository_url@, j));
    repository_url.to_owned()
}

/// Splits a repository label at its first slash into owner and name;
/// a label without a slash has no split.
pub fn split_owner_repo(repo: &str) -> (r: Option<(String, String)>)
    ensures
        match r {
            Some(p) => exists|i: int|
                0 <= i < repo@.len() && repo@[i] == '/' && (forall|j: int|
                    0 <= j < i ==> repo@[j] != '/') && p.0@ == repo@.take(i) && p.1@ == repo@.skip(
                    i + 1,
                ),
            None => forall|i: int| 0 <= i < repo@.len() ==> repo@[i] != '/',
        },
{
    let len = repo.unicode_len();
    let mut i: usize = 0;
    while i < len
        invariant
            len == repo@.len(),
            i <= len,
            forall|j: int| 0 <= j < i ==> repo@[j] != '/',
        decreases len - i,
    {
        if repo.get_char(i) == '/' {
            let owner = repo.substring_char(0, i).to_owned();
            let name = repo.substring_char(i + 1, len).to_owned();
            proof {
                assert(owner@ =~= repo@.take(i as int));
                assert(name@ =~= repo@.skip(i + 1));
            }
            return Some((owner, name));
        }
        i += 1;
    }
    None
}

/// The mergeable state carried by an optional detail record.
pub open spec fn detail_mstate(pd: Option<GitHubPullDetail>) -> Option<Seq<char>> {
    match pd {
        Some(d) => match d.mergeable_state {
            Some(s) => Some(s@),
            None => None,
        },
        None => None,
    }
}

/// Builds the enriched record for one item from its fetched reviews,
/// outstanding review requests and optional mergeability detail, classifying
/// it under the given section.
pub fn finish_enrich(
    item: &GitHubSearchItem,
    repo: &str,
    section: Section,
    my_username: &str,
    is_review_requested: bool,
    reviews: Vec<GitHubReview>,
    rr_data: GitHubRequestedReviewersResponse,
    pull_detail: Option<GitHubPullDetail>,
) -> (r: Result<DashboardPR, FetchError>)
    requires
        rr_data.users@.len() + rr_data.teams@.len() <= usize::MAX,
    ensures
        r is Ok,
        ({
            let p = r->Ok_0;
            &&& p.id == item.id
            &&& p.number == item.number
            &&& p.title@ == item.title@
            &&& p.url@ == item.html_url@
            &&& p.repo@ == repo@
            &&& p.author.login@ == item.user.login@
            &&& p.author.avatar_url@ == item.user.avatar_url@
            &&& p.is_draft == item.draft
            &&& p.created_at@ == item.created_at@
            &&& p.updated_at@ == item.updated_at@
            &&& p.labels@.len() == item.labels@.len()
            &&& forall|i: int|
                0 <= i < item.labels@.len() ==> (#[trigger] p.labels@[i]).name@
                    == item.labels@[i].name@ && p.labels@[i].color@ == item.labels@[i].color@
            &&& p.review_summary@ == review_summary_spec(reviews@, rr_data.users@, rr_data.teams@)
            &&& p.turn_debug_info is Some
            &&& section == Section::MyPrs ==> {
                &&& p.turn_status == my_pr_verdict(
                    reviews@,
                    rr_data.users@,
                    lower_of(item.user.login@),
                    detail_mstate(pull_detail),
                )
                &&& p.turn_debug_info->Some_0.section@ == "my-prs"@
                &&& p.turn_debug_info->Some_0.deciding_check@ == my_pr_deciding(
                    reviews@,
                    rr_data.users@,
                    lower_of(item.user.login@),
                    detail_mstate(pull_detail),
                )
                &&& p.turn_debug_info->Some_0.checks@.map_values(
                    |c: TurnDebugCheck| (c.label@, c.value@, c.result),
                ) == my_pr_checks(
                    reviews@,
                    rr_data.users@,
                    lower_of(item.user.login@),
                    detail_mstate(pull_detail),
                )
            }
            &&& section == Section::ReviewRequests ==> {
                &&& p.turn_status == review_request_verdict(
                    rr_data.users@,
                    rr_data.teams@,
                    lower_of(my_username@),
                    is_review_requested,
                )
                &&& p.turn_debug_info->Some_0.section@ == "review-requests"@
                &&& p.turn_debug_info->Some_0.deciding_check@ == review_request_deciding(
                    rr_data.users@,
                    lower_of(my_username@),
                )
                &&& p.turn_debug_info->Some_0.checks@.map_values(
                    |c: TurnDebugCheck| (c.label@, c.value@, c.result),
                ) == review_request_checks(
                    rr_data.users@,
                    rr_data.teams@,
                    lower_of(my_username@),
                    is_review_requested,
                )
            }
        }),
{
    let mergeable_state: Option<&str> = match &pull_detail {
        Some(d) => match &d.mergeable_state {
            Some(s) => Some(s.as_str()),
            None => None,
        },
        None => None,
    };
    let turn = match section {
        Section::MyPrs => determine_my_pr_turn(
            &reviews,
            &rr_data.users,
            item.user.login.as_str(),
            mergeable_state,
        ),
        Section::ReviewRequests => determine_review_request_turn(
            &reviews,
            &rr_data.users,
            &rr_data.teams,
            my_username,
            is_review_requested,
        ),
    };
    let review_summary = build_review_summary(&reviews, &rr_data.users, &rr_data.teams);
    let mut labels: Vec<DashboardLabel> = Vec::new();
    let mut i: usize = 0;
    while i < item.labels.len()
        invariant
            i <= item.labels@.len(),
            labels@.len() == i,
            forall|j: int|
                0 <= j < i ==> (#[trigger] labels@[j]).name@ == item.labels@[j].name@
                    && labels@[j].color@ == item.labels@[j].color@,
        decreases item.labels@.len() - i,
    {
        labels.push(
            DashboardLabel {
                name: item.labels[i].name.clone(),
                color: item.labels[i].color.clone(),
            },
        );
        i += 1;
    }
    Ok(
        DashboardPR {
            id: item.id,
            number: item.number,
            title: item.title.clone(),
            url: item.html_url.clone(),
            repo: repo.to_owned(),
            author: DashboardAuthor {
                login: item.user.login.clone(),
                avatar_url: item.user.avatar_url.clone(),
            },
            turn_status: turn.turn_status,
            turn_debug_info: Some(turn.debug_info),
            is_draft: item.draft,
            created_at: item.created_at.clone(),
            updated_at: item.updated_at.clone(),
            labels,
            review_summary,
        },
    )
}

} // verus!
