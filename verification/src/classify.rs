//! The turn-classification decision tree: which side must act next on an
//! item, with an ordered, labeled trace of every step evaluated.

use vstd::prelude::*;

use crate::strutil::{
    dec_digits, join_comma, join_comma_strings, lower_of, lowercase, str_eq, u64_to_string,
};
use crate::types::{CheckResult, GitHubReview, GitHubTeam, GitHubUser, TurnDebugCheck,
    TurnDebugInfo, TurnResult, TurnStatus};

verus! {

/// A review event with one of the four terminal dispositions counts as
/// submitted.
pub open spec fn is_submitted_spec(s: Seq<char>) -> bool {
    s == "APPROVED"@ || s == "CHANGES_REQUESTED"@ || s == "COMMENTED"@ || s == "DISMISSED"@
}

/// Decides whether a review state string is a submitted disposition.
pub fn is_submitted_state(state: &str) -> (r: bool)
    ensures
        r == is_submitted_spec(state@),
{
    str_eq(state, "APPROVED") || str_eq(state, "CHANGES_REQUESTED") || str_eq(state, "COMMENTED")
        || str_eq(state, "DISMISSED")
}

/// Appends an element unless it is already present.
pub open spec fn push_unique(s: Seq<Seq<char>>, x: Seq<char>) -> Seq<Seq<char>> {
    if s.contains(x) {
        s
    } else {
        s.push(x)
    }
}

/// Whether a review by this submitter counts toward the classifier: a
/// submitted state, and not the item's author (case-insensitively).
pub open spec fn counted_review(r: GitHubReview, author_l: Seq<char>) -> bool {
    is_submitted_spec(r.state@) && lower_of(r.user.login@) != author_l
}

/// Those who submitted feedback (lowercased, the author excluded), in
/// order of first appearance, without repetition.
pub open spec fn submitted_reviewers(reviews: Seq<GitHubReview>, author_l: Seq<char>) -> Seq<
    Seq<char>,
>
    decreases reviews.len(),
{
    if reviews.len() == 0 {
        Seq::empty()
    } else {
        let prev = submitted_reviewers(reviews.drop_last(), author_l);
        if counted_review(reviews.last(), author_l) {
            push_unique(prev, lower_of(reviews.last().user.login@))
        } else {
            prev
        }
    }
}

/// A submitter appears in the submitted set exactly when some counted
/// review of theirs appears in the list.
pub proof fn lemma_submitted_member(reviews: Seq<GitHubReview>, author_l: Seq<char>, k: Seq<char>)
    ensures
        submitted_reviewers(reviews, author_l).contains(k) <==> exists|i: int|
            0 <= i < reviews.len() && counted_review(reviews[i], author_l) && lower_of(
                reviews[i].user.login@,
            ) == k,
    decreases reviews.len(),
{
    if reviews.len() > 0 {
        lemma_submitted_member(reviews.drop_last(), author_l, k);
        let n = reviews.len() - 1;
        assert(forall|i: int| 0 <= i < n ==> reviews.drop_last()[i] == reviews[i]);
        if submitted_reviewers(reviews, author_l).contains(k) {
            if counted_review(reviews[n], author_l) && lower_of(reviews[n].user.login@) == k {
            } else {
                assert(submitted_reviewers(reviews.drop_last(), author_l).contains(k));
            }
        }
        if exists|i: int|
            0 <= i < reviews.len() && counted_review(reviews[i], author_l) && lower_of(
                reviews[i].user.login@,
            ) == k {
            let i = choose|i: int|
                0 <= i < reviews.len() && counted_review(reviews[i], author_l) && lower_of(
                    reviews[i].user.login@,
                ) == k;
            if i < n {
                assert(submitted_reviewers(reviews.drop_last(), author_l).contains(k));
                let prev = submitted_reviewers(reviews.drop_last(), author_l);
                if counted_review(reviews[n], author_l) {
                    let kn = lower_of(reviews[n].user.login@);
                    if !prev.contains(kn) {
                        assert(push_unique(prev, kn)[prev.index_of(k)] == k);
                    }
                }
            } else {
                let prev = submitted_reviewers(reviews.drop_last(), author_l);
                if !prev.contains(k) {
                    assert(push_unique(prev, k).last() == k);
                }
            }
        }
    }
}

/// The latest submitted state recorded for one submitter after folding the
/// review list in order, under the sticky rule: a comment does not
/// overwrite a prior approval or change request.
pub open spec fn sticky_keeps(prev: Seq<char>, next: Seq<char>) -> bool {
    (prev == "CHANGES_REQUESTED"@ || prev == "APPROVED"@) && next == "COMMENTED"@
}

/// The latest state for the submitter whose lowercased login is `k`, or
/// `None` when no counted review of theirs occurs.
pub open spec fn latest_for(reviews: Seq<GitHubReview>, author_l: Seq<char>, k: Seq<char>) -> Option<
    Seq<char>,
>
    decreases reviews.len(),
{
    if reviews.len() == 0 {
        None
    } else {
        let prev = latest_for(reviews.drop_last(), author_l, k);
        let r = reviews.last();
        if counted_review(r, author_l) && lower_of(r.user.login@) == k {
            if prev matches Some(p) && sticky_keeps(p, r.state@) {
                prev
            } else {
                Some(r.state@)
            }
        } else {
            prev
        }
    }
}

/// A submitter has a latest state exactly when they are in the submitted
/// set.
pub proof fn lemma_latest_some(reviews: Seq<GitHubReview>, author_l: Seq<char>, k: Seq<char>)
    ensures
        latest_for(reviews, author_l, k) is Some <==> submitted_reviewers(
            reviews,
            author_l,
        ).contains(k),
    decreases reviews.len(),
{
    if reviews.len() > 0 {
        lemma_latest_some(reviews.drop_last(), author_l, k);
        let n = reviews.len() - 1;
        let prev = submitted_reviewers(reviews.drop_last(), author_l);
        if counted_review(reviews[n], author_l) {
            let kn = lower_of(reviews[n].user.login@);
            if kn == k {
                if !prev.contains(k) {
                    assert(push_unique(prev, k).last() == k);
                }
            } else {
                if !prev.contains(kn) {
                    if prev.contains(k) {
                        assert(push_unique(prev, kn)[prev.index_of(k)] == k);
                    }
                    if push_unique(prev, kn).contains(k) {
                        let j = choose|j: int|
                            0 <= j < push_unique(prev, kn).len() && push_unique(prev, kn)[j] == k;
                        assert(j < prev.len() && prev[j] == k);
                    }
                }
            }
        }
    }
}

/// Some counted submitter's latest state is a change request.
pub open spec fn any_changes_requested(reviews: Seq<GitHubReview>, author_l: Seq<char>) -> bool {
    exists|i: int|
        0 <= i < reviews.len() && counted_review(reviews[i], author_l) && latest_for(
            reviews,
            author_l,
            lower_of(reviews[i].user.login@),
        ) == Some("CHANGES_REQUESTED"@)
}

/// The distinct lowercased logins of the outstanding review requests, in order
/// of first appearance.
pub open spec fn distinct_lowered_logins(users: Seq<GitHubUser>) -> Seq<Seq<char>>
    decreases users.len(),
{
    if users.len() == 0 {
        Seq::empty()
    } else {
        push_unique(distinct_lowered_logins(users.drop_last()), lower_of(users.last().login@))
    }
}

/// Every element of `a` occurs in `b`.
pub open spec fn all_contained(a: Seq<Seq<char>>, b: Seq<Seq<char>>) -> bool {
    forall|i: int| 0 <= i < a.len() ==> b.contains(a[i])
}

/// Decides whether a string equals any element of the vector.
pub fn vec_contains_string(v: &Vec<String>, x: &str) -> (r: bool)
    ensures
        r == v@.map_values(|s: String| s@).contains(x@),
{
    let ghost m = v@.map_values(|s: String| s@);
    let mut i: usize = 0;
    while i < v.len()
        invariant
            m == v@.map_values(|s: String| s@),
            i <= v@.len(),
            forall|j: int| 0 <= j < i ==> m[j] != x@,
        decreases v@.len() - i,
    {
        if str_eq(v[i].as_str(), x) {
            assert(m[i as int] == x@);
            return true;
        }
        i += 1;
    }
    false
}

/// Decides whether every element of `a` occurs in `b`.
pub fn all_in(a: &Vec<String>, b: &Vec<String>) -> (r: bool)
    ensures
        r == all_contained(a@.map_values(|s: String| s@), b@.map_values(|s: String| s@)),
{
    let ghost ma = a@.map_values(|s: String| s@);
    let mut i: usize = 0;
    while i < a.len()
        invariant
            ma == a@.map_values(|s: String| s@),
            i <= a@.len(),
            forall|j: int| 0 <= j < i ==> b@.map_values(|s: String| s@).contains(ma[j]),
        decreases a@.len() - i,
    {
        if !vec_contains_string(b, a[i].as_str()) {
            assert(!b@.map_values(|s: String| s@).contains(ma[i as int]));
            return false;
        }
        i += 1;
    }
    true
}

/// Collects those who submitted feedback (lowercased, the author excluded), in
/// order of first appearance.
pub fn collect_submitted_reviewers(reviews: &Vec<GitHubReview>, author_l: &str) -> (v: Vec<String>)
    ensures
        v@.map_values(|s: String| s@) == submitted_reviewers(reviews@, author_l@),
{
    let mut v: Vec<String> = Vec::new();
    let mut i: usize = 0;
    while i < reviews.len()
        invariant
            i <= reviews@.len(),
            v@.map_values(|s: String| s@) == submitted_reviewers(
                reviews@.take(i as int),
                author_l@,
            ),
        decreases reviews@.len() - i,
    {
        proof {
            assert(reviews@.take(i + 1).drop_last() =~= reviews@.take(i as int));
            assert(reviews@.take(i + 1).last() == reviews@[i as int]);
        }
        if is_submitted_state(reviews[i].state.as_str()) {
            let login_l = lowercase(reviews[i].user.login.as_str());
            if !str_eq(login_l.as_str(), author_l) {
                if !vec_contains_string(&v, login_l.as_str()) {
                    v.push(login_l);
                    assert(v@.map_values(|s: String| s@) =~= submitted_reviewers(
                        reviews@.take(i + 1),
                        author_l@,
                    ));
                }
            }
        }
        i += 1;
    }
    proof {
        assert(reviews@.take(reviews@.len() as int) =~= reviews@);
    }
    v
}

/// Collects the distinct lowercased logins of the outstanding review requests.
pub fn collect_requested_lowered(users: &Vec<GitHubUser>) -> (v: Vec<String>)
    ensures
        v@.map_values(|s: String| s@) == distinct_lowered_logins(users@),
{
    let mut v: Vec<String> = Vec::new();
    let mut i: usize = 0;
    while i < users.len()
        invariant
            i <= users@.len(),
            v@.map_values(|s: String| s@) == distinct_lowered_logins(users@.take(i as int)),
        decreases users@.len() - i,
    {
        proof {
            assert(users@.take(i + 1).drop_last() =~= users@.take(i as int));
            assert(users@.take(i + 1).last() == users@[i as int]);
        }
        let login_l = lowercase(users[i].login.as_str());
        if !vec_contains_string(&v, login_l.as_str()) {
            v.push(login_l);
            assert(v@.map_values(|s: String| s@) =~= distinct_lowered_logins(users@.take(i + 1)));
        }
        i += 1;
    }
    proof {
        assert(users@.take(users@.len() as int) =~= users@);
    }
    v
}

/// The submitted set never repeats a login.
pub proof fn lemma_submitted_distinct(reviews: Seq<GitHubReview>, author_l: Seq<char>)
    ensures
        forall|i: int, j: int|
            0 <= i < j < submitted_reviewers(reviews, author_l).len() ==> submitted_reviewers(
                reviews,
                author_l,
            )[i] != submitted_reviewers(reviews, author_l)[j],
    decreases reviews.len(),
{
    if reviews.len() > 0 {
        lemma_submitted_distinct(reviews.drop_last(), author_l);
        let prev = submitted_reviewers(reviews.drop_last(), author_l);
        if counted_review(reviews.last(), author_l) {
            let kn = lower_of(reviews.last().user.login@);
            if !prev.contains(kn) {
                assert(forall|i: int| 0 <= i < prev.len() ==> prev[i] != kn);
            }
        }
    }
}

/// Finds the position of the first pair whose key equals `k`.
fn find_key(v: &Vec<(String, String)>, k: &str) -> (r: Option<usize>)
    ensures
        match r {
            Some(idx) => idx < v@.len() && v@[idx as int].0@ == k@,
            None => forall|j: int| 0 <= j < v@.len() ==> v@[j].0@ != k@,
        },
{
    let mut idx: usize = 0;
    while idx < v.len()
        invariant
            idx <= v@.len(),
            forall|j: int| 0 <= j < idx ==> v@[j].0@ != k@,
        decreases v@.len() - idx,
    {
        if str_eq(v[idx].0.as_str(), k) {
            return Some(idx);
        }
        idx += 1;
    }
    None
}

/// Collects, for each submitter in order of first appearance,
/// their latest state under the sticky rule.
pub fn collect_latest_lowered(reviews: &Vec<GitHubReview>, author_l: &str) -> (v: Vec<
    (String, String),
>)
    ensures
        v@.map_values(|p: (String, String)| p.0@) == submitted_reviewers(reviews@, author_l@),
        forall|j: int|
            0 <= j < v@.len() ==> Some(v@[j].1@) == latest_for(reviews@, author_l@, v@[j].0@),
{
    let mut v: Vec<(String, String)> = Vec::new();
    let mut i: usize = 0;
    while i < reviews.len()
        invariant
            i <= reviews@.len(),
            v@.map_values(|p: (String, String)| p.0@) == submitted_reviewers(
                reviews@.take(i as int),
                author_l@,
            ),
            forall|j: int|
                0 <= j < v@.len() ==> Some(#[trigger] v@[j].1@) == latest_for(
                    reviews@.take(i as int),
                    author_l@,
                    v@[j].0@,
                ),
        decreases reviews@.len() - i,
    {
        let ghost pre = reviews@.take(i as int);
        let ghost post = reviews@.take(i + 1);
        proof {
            assert(post.drop_last() =~= pre);
            assert(post.last() == reviews@[i as int]);
        }
        if is_submitted_state(reviews[i].state.as_str()) {
            let login_l = lowercase(reviews[i].user.login.as_str());
            if !str_eq(login_l.as_str(), author_l) {
                let ghost key = login_l@;
                let ghost keys = v@.map_values(|p: (String, String)| p.0@);
                proof {
                    lemma_submitted_distinct(pre, author_l@);
                }
                if let Some(idx) = find_key(&v, login_l.as_str()) {
                    proof {
                        assert(keys[idx as int] == key);
                        assert(keys.contains(key));
                        assert(push_unique(submitted_reviewers(pre, author_l@), key)
                            == submitted_reviewers(pre, author_l@));
                    }
                    let ghost old_val = v@[idx as int].1@;
                    let keep_prev = str_eq(reviews[i].state.as_str(), "COMMENTED") && (str_eq(
                        v[idx].1.as_str(),
                        "CHANGES_REQUESTED",
                    ) || str_eq(v[idx].1.as_str(), "APPROVED"));
                    assert(keep_prev == sticky_keeps(old_val, reviews@[i as int].state@));
                    if !keep_prev {
                        let st = reviews[i].state.clone();
                        v[idx] = (login_l, st);
                        proof {
                            assert(v@.map_values(|p: (String, String)| p.0@) =~= keys);
                        }
                    }
                    proof {
                        assert forall|j: int| 0 <= j < v@.len() implies Some(
                            #[trigger] v@[j].1@,
                        ) == latest_for(post, author_l@, v@[j].0@) by {
                            if v@[j].0@ == key {
                                // keys never repeat, so this is the found entry
                                assert(keys[j] == key && keys[idx as int] == key);
                                assert(j == idx as int);
                                assert(latest_for(pre, author_l@, key) == Some(old_val));
                            } else {
                                assert(latest_for(post, author_l@, v@[j].0@) == latest_for(
                                    pre,
                                    author_l@,
                                    v@[j].0@,
                                ));
                            }
                        }
                    }
                } else {
                    proof {
                        assert(forall|j: int| 0 <= j < keys.len() ==> keys[j] != key);
                        if keys.contains(key) {
                            let j = choose|j: int| 0 <= j < keys.len() && keys[j] == key;
                            assert(false);
                        }
                        lemma_latest_some(pre, author_l@, key);
                    }
                    let st = reviews[i].state.clone();
                    v.push((login_l, st));
                    proof {
                        assert(v@.map_values(|p: (String, String)| p.0@) =~= submitted_reviewers(
                            post,
                            author_l@,
                        ));
                        assert forall|j: int| 0 <= j < v@.len() implies Some(
                            #[trigger] v@[j].1@,
                        ) == latest_for(post, author_l@, v@[j].0@) by {
                            if j < v@.len() - 1 {
                                assert(v@[j].0@ != key);
                            }
                        }
                    }
                }
            }
        }
        i += 1;
    }
    proof {
        assert(reviews@.take(reviews@.len() as int) =~= reviews@);
    }
    v
}

/// The view of an optional string argument.
pub open spec fn opt_view(m: Option<&str>) -> Option<Seq<char>> {
    match m {
        Some(s) => Some(s@),
        None => None,
    }
}

/// The rendered mergeable state: the state itself, or `null` when absent.
pub open spec fn mstate_view(m: Option<Seq<char>>) -> Seq<char> {
    match m {
        Some(s) => s,
        None => "null"@,
    }
}

/// The verdict the mergeability fallback assigns: only `blocked` waits on
/// the other side.
pub open spec fn merge_verdict(st: Seq<char>) -> TurnStatus {
    if st == "blocked"@ {
        TurnStatus::TheirTurn
    } else {
        TurnStatus::MyTurn
    }
}

/// The rendered description of the mergeability fallback.
pub open spec fn merge_desc(st: Seq<char>) -> Seq<char> {
    if st == "clean"@ {
        "Ready to merge — all branch protection met"@
    } else if st == "blocked"@ {
        "Insufficient approvals / CODEOWNERS not satisfied"@
    } else if st == "dirty"@ {
        "Merge conflicts — author needs to resolve"@
    } else if st == "unstable"@ {
        "Failing checks — author should investigate"@
    } else {
        "Unknown/null — conservative fallback"@
    }
}

/// A verdict rendered as a trace outcome.
pub open spec fn check_of_status(t: TurnStatus) -> CheckResult {
    match t {
        TurnStatus::MyTurn => CheckResult::MyTurn,
        TurnStatus::TheirTurn => CheckResult::TheirTurn,
    }
}

/// The rendered `submitter: state` pairs, joined with commas.
pub open spec fn latest_rendered(reviews: Seq<GitHubReview>, al: Seq<char>) -> Seq<char> {
    join_comma(
        submitted_reviewers(reviews, al).map_values(
            |k: Seq<char>| k + ": "@ + latest_for(reviews, al, k)->Some_0,
        ),
    )
}

/// Step: no reviews submitted yet.
pub open spec fn my_pr_step1(reviews: Seq<GitHubReview>, al: Seq<char>) -> (Seq<char>, Seq<
    char,
>, CheckResult) {
    let subs = submitted_reviewers(reviews, al);
    (
        "No reviews submitted yet"@,
        if subs.len() == 0 {
            "Nobody has submitted feedback"@
        } else {
            dec_digits(subs.len() as nat) + " submitter(s): "@ + join_comma(subs)
        },
        if subs.len() == 0 {
            CheckResult::TheirTurn
        } else {
            CheckResult::Skip
        },
    )
}

/// Step: all submitters re-requested.
pub open spec fn my_pr_step2(
    reviews: Seq<GitHubReview>,
    requested: Seq<GitHubUser>,
    al: Seq<char>,
) -> (Seq<char>, Seq<char>, CheckResult) {
    let subs = submitted_reviewers(reviews, al);
    let req = distinct_lowered_logins(requested);
    let all_rr = all_contained(subs, req);
    (
        "All submitters re-requested"@,
        if all_rr {
            "All submitters re-requested: "@ + join_comma(subs)
        } else if req.len() > 0 {
            "Re-requested: "@ + join_comma(req) + " (not all submitters)"@
        } else {
            "No re-requests pending"@
        },
        if all_rr {
            CheckResult::TheirTurn
        } else {
            CheckResult::Skip
        },
    )
}

/// Step: changes requested.
pub open spec fn my_pr_step3(reviews: Seq<GitHubReview>, al: Seq<char>) -> (Seq<char>, Seq<
    char,
>, CheckResult) {
    let has = any_changes_requested(reviews, al);
    let ls = latest_rendered(reviews, al);
    (
        "Changes requested"@,
        if has {
            "Changes requested found ("@ + ls + ")"@
        } else {
            "No changes requested ("@ + (if ls.len() == 0 {
                "none"@
            } else {
                ls
            }) + ")"@
        },
        if has {
            CheckResult::MyTurn
        } else {
            CheckResult::Skip
        },
    )
}

/// Step: mergeability fallback.
pub open spec fn my_pr_step4(mstate: Seq<char>) -> (Seq<char>, Seq<char>, CheckResult) {
    ("Mergeable state: "@ + mstate, merge_desc(mstate), check_of_status(merge_verdict(mstate)))
}

/// The full trace the authored-item classifier records: one entry per
/// evaluated step, unreached steps omitted.
pub open spec fn my_pr_checks(
    reviews: Seq<GitHubReview>,
    requested: Seq<GitHubUser>,
    al: Seq<char>,
    m: Option<Seq<char>>,
) -> Seq<(Seq<char>, Seq<char>, CheckResult)> {
    let subs = submitted_reviewers(reviews, al);
    let all_rr = all_contained(subs, distinct_lowered_logins(requested));
    if subs.len() == 0 {
        seq![my_pr_step1(reviews, al)]
    } else if all_rr {
        seq![my_pr_step1(reviews, al), my_pr_step2(reviews, requested, al)]
    } else if any_changes_requested(reviews, al) {
        seq![
            my_pr_step1(reviews, al),
            my_pr_step2(reviews, requested, al),
            my_pr_step3(reviews, al),
        ]
    } else {
        seq![
            my_pr_step1(reviews, al),
            my_pr_step2(reviews, requested, al),
            my_pr_step3(reviews, al),
            my_pr_step4(mstate_view(m)),
        ]
    }
}

/// The verdict of the authored-item decision tree, evaluated top-down.
pub open spec fn my_pr_verdict(
    reviews: Seq<GitHubReview>,
    requested: Seq<GitHubUser>,
    al: Seq<char>,
    m: Option<Seq<char>>,
) -> TurnStatus {
    let subs = submitted_reviewers(reviews, al);
    let all_rr = all_contained(subs, distinct_lowered_logins(requested));
    if subs.len() == 0 {
        TurnStatus::TheirTurn
    } else if all_rr {
        TurnStatus::TheirTurn
    } else if any_changes_requested(reviews, al) {
        TurnStatus::MyTurn
    } else {
        merge_verdict(mstate_view(m))
    }
}

/// The label of the step that decided the authored-item verdict.
pub open spec fn my_pr_deciding(
    reviews: Seq<GitHubReview>,
    requested: Seq<GitHubUser>,
    al: Seq<char>,
    m: Option<Seq<char>>,
) -> Seq<char> {
    let subs = submitted_reviewers(reviews, al);
    let all_rr = all_contained(subs, distinct_lowered_logins(requested));
    if subs.len() == 0 {
        "No reviews submitted yet"@
    } else if all_rr {
        "All submitters re-requested"@
    } else if any_changes_requested(reviews, al) {
        "Changes requested"@
    } else {
        "Mergeable state: "@ + mstate_view(m)
    }
}

/// Classifies an item the viewer authored: whose action is required next,
/// with the ordered trace of every step evaluated.
pub fn determine_my_pr_turn(
    reviews: &Vec<GitHubReview>,
    requested_reviewers: &Vec<GitHubUser>,
    author_username: &str,
    mergeable_state: Option<&str>,
) -> (r: TurnResult)
    ensures
        r.turn_status == my_pr_verdict(
            reviews@,
            requested_reviewers@,
            lower_of(author_username@),
            opt_view(mergeable_state),
        ),
        r.debug_info.section@ == "my-prs"@,
        r.debug_info.deciding_check@ == my_pr_deciding(
            reviews@,
            requested_reviewers@,
            lower_of(author_username@),
            opt_view(mergeable_state),
        ),
        r.debug_info.checks@.map_values(|c: TurnDebugCheck| (c.label@, c.value@, c.result))
            == my_pr_checks(
            reviews@,
            requested_reviewers@,
            lower_of(author_username@),
            opt_view(mergeable_state),
        ),
{
    let ghost al = lower_of(author_username@);
    let ghost mv = opt_view(mergeable_state);
    let author_l = lowercase(author_username);
    let mut checks: Vec<TurnDebugCheck> = Vec::new();

    // Step 1: submitters who have submitted feedback (excluding the author)
    let submitted = collect_submitted_reviewers(reviews, author_l.as_str());
    let no_reviews = submitted.len() == 0;
    let value1: String = if no_reviews {
        String::from_str("Nobody has submitted feedback")
    } else {
        let mut s = u64_to_string(submitted.len() as u64);
        s.append(" submitter(s): ");
        let joined = join_comma_strings(&submitted);
        s.append(joined.as_str());
        s
    };
    checks.push(
        TurnDebugCheck {
            label: String::from_str("No reviews submitted yet"),
            value: value1,
            result: if no_reviews {
                CheckResult::TheirTurn
            } else {
                CheckResult::Skip
            },
        },
    );
    if no_reviews {
        let r = TurnResult {
            turn_status: TurnStatus::TheirTurn,
            debug_info: TurnDebugInfo {
                section: String::from_str("my-prs"),
                checks,
                deciding_check: String::from_str("No reviews submitted yet"),
            },
        };
        proof {
            assert(r.debug_info.checks@.map_values(
                |c: TurnDebugCheck| (c.label@, c.value@, c.result),
            ) =~= my_pr_checks(reviews@, requested_reviewers@, al, mv));
        }
        return r;
    }
    // Step 2: have all submitters been asked again?
    let requested_l = collect_requested_lowered(requested_reviewers);
    let all_rr = all_in(&submitted, &requested_l);
    let value2: String = if all_rr {
        let mut s = String::from_str("All submitters re-requested: ");
        let joined = join_comma_strings(&submitted);
        s.append(joined.as_str());
        s
    } else if requested_l.len() > 0 {
        let mut s = String::from_str("Re-requested: ");
        let joined = join_comma_strings(&requested_l);
        s.append(joined.as_str());
        s.append(" (not all submitters)");
        s
    } else {
        String::from_str("No re-requests pending")
    };
    checks.push(
        TurnDebugCheck {
            label: String::from_str("All submitters re-requested"),
            value: value2,
            result: if all_rr {
                CheckResult::TheirTurn
            } else {
                CheckResult::Skip
            },
        },
    );
    if all_rr {
        let r = TurnResult {
            turn_status: TurnStatus::TheirTurn,
            debug_info: TurnDebugInfo {
                section: String::from_str("my-prs"),
                checks,
                deciding_check: String::from_str("All submitters re-requested"),
            },
        };
        proof {
            assert(r.debug_info.checks@.map_values(
                |c: TurnDebugCheck| (c.label@, c.value@, c.result),
            ) =~= my_pr_checks(reviews@, requested_reviewers@, al, mv));
        }
        return r;
    }
    // Step 3: latest state per submitter, under the sticky rule
    let latest = collect_latest_lowered(reviews, author_l.as_str());
    let mut has_cr = false;
    let mut parts: Vec<String> = Vec::new();
    let ghost rendered = submitted_reviewers(reviews@, al).map_values(
        |k: Seq<char>| k + ": "@ + latest_for(reviews@, al, k)->Some_0,
    );
    let mut j: usize = 0;
    while j < latest.len()
        invariant
            j <= latest@.len(),
            latest@.map_values(|p: (String, String)| p.0@) == submitted_reviewers(reviews@, al),
            forall|t: int|
                0 <= t < latest@.len() ==> Some(#[trigger] latest@[t].1@) == latest_for(
                    reviews@,
                    al,
                    latest@[t].0@,
                ),
            rendered == submitted_reviewers(reviews@, al).map_values(
                |k: Seq<char>| k + ": "@ + latest_for(reviews@, al, k)->Some_0,
            ),
            has_cr == exists|t: int| 0 <= t < j && latest@[t].1@ == "CHANGES_REQUESTED"@,
            parts@.map_values(|s: String| s@) =~= rendered.take(j as int),
        decreases latest@.len() - j,
    {
        if str_eq(latest[j].1.as_str(), "CHANGES_REQUESTED") {
            has_cr = true;
            assert(latest@[j as int].1@ == "CHANGES_REQUESTED"@);
        }
        let ghost oldp = parts@;
        let mut p = latest[j].0.clone();
        p.append(": ");
        p.append(latest[j].1.as_str());
        let ghost pv = p@;
        parts.push(p);
        proof {
            assert(rendered[j as int] == latest@[j as int].0@ + ": "@ + latest@[j as int].1@);
            assert(oldp.map_values(|s: String| s@).len() == oldp.len());
            assert(oldp.len() == j as int);
            assert(parts@.len() == j + 1);
            assert forall|t: int| 0 <= t < j + 1 implies parts@.map_values(|s: String| s@)[t]
                == #[trigger] rendered.take(j + 1)[t] by {
                assert(parts@.map_values(|s: String| s@)[t] == parts@[t]@);
                if t < j {
                    assert(parts@[t] == oldp[t]);
                    assert(oldp.map_values(|s: String| s@)[t] == oldp[t]@);
                    assert(oldp.map_values(|s: String| s@)[t] == rendered.take(j as int)[t]);
                } else {
                    assert(parts@[t]@ == pv);
                }
            }
            assert(parts@.map_values(|s: String| s@) =~= rendered.take(j + 1));
        }
        j += 1;
    }
    proof {
        assert(rendered.take(latest@.len() as int) =~= rendered);
        // relate the scan to the spec-level predicate
        if has_cr {
            let t = choose|t: int|
                0 <= t < latest@.len() && latest@[t].1@ == "CHANGES_REQUESTED"@;
            lemma_submitted_member(reviews@, al, latest@[t].0@);
            assert(submitted_reviewers(reviews@, al)[t] == latest@[t].0@);
            assert(submitted_reviewers(reviews@, al).contains(latest@[t].0@));
            assert(any_changes_requested(reviews@, al));
        } else {
            if any_changes_requested(reviews@, al) {
                let i = choose|i: int|
                    0 <= i < reviews@.len() && counted_review(reviews@[i], al) && latest_for(
                        reviews@,
                        al,
                        lower_of(reviews@[i].user.login@),
                    ) == Some("CHANGES_REQUESTED"@);
                let k = lower_of(reviews@[i].user.login@);
                lemma_submitted_member(reviews@, al, k);
                let subs = submitted_reviewers(reviews@, al);
                assert(subs.contains(k));
                let t = choose|t: int| 0 <= t < subs.len() && subs[t] == k;
                assert(latest@[t].0@ == k);
                assert(Some(latest@[t].1@) == latest_for(reviews@, al, k));
                assert(false);
            }
        }
    }
    let ls = join_comma_strings(&parts);
    let value3: String = if has_cr {
        let mut s = String::from_str("Changes requested found (");
        s.append(ls.as_str());
        s.append(")");
        s
    } else {
        let mut s = String::from_str("No changes requested (");
        if ls.as_str().is_empty() {
            s.append("none");
        } else {
            s.append(ls.as_str());
        }
        s.append(")");
        s
    };
    checks.push(
        TurnDebugCheck {
            label: String::from_str("Changes requested"),
            value: value3,
            result: if has_cr {
                CheckResult::MyTurn
            } else {
                CheckResult::Skip
            },
        },
    );
    if has_cr {
        let r = TurnResult {
            turn_status: TurnStatus::MyTurn,
            debug_info: TurnDebugInfo {
                section: String::from_str("my-prs"),
                checks,
                deciding_check: String::from_str("Changes requested"),
            },
        };
        proof {
            assert(r.debug_info.checks@.map_values(
                |c: TurnDebugCheck| (c.label@, c.value@, c.result),
            ) =~= my_pr_checks(reviews@, requested_reviewers@, al, mv));
        }
        return r;
    }
    // Step 4: mergeability fallback, always terminal
    let state_str: &str = match mergeable_state {
        Some(s) => s,
        None => "null",
    };
    let merge_my_turn: bool = !str_eq(state_str, "blocked");
    let desc: &str = if str_eq(state_str, "clean") {
        "Ready to merge — all branch protection met"
    } else if str_eq(state_str, "blocked") {
        "Insufficient approvals / CODEOWNERS not satisfied"
    } else if str_eq(state_str, "dirty") {
        "Merge conflicts — author needs to resolve"
    } else if str_eq(state_str, "unstable") {
        "Failing checks — author should investigate"
    } else {
        "Unknown/null — conservative fallback"
    };
    let mut label4 = String::from_str("Mergeable state: ");
    label4.append(state_str);
    let deciding = label4.clone();
    checks.push(
        TurnDebugCheck {
            label: label4,
            value: String::from_str(desc),
            result: if merge_my_turn {
                CheckResult::MyTurn
            } else {
                CheckResult::TheirTurn
            },
        },
    );
    let r = TurnResult {
        turn_status: if merge_my_turn {
            TurnStatus::MyTurn
        } else {
            TurnStatus::TheirTurn
        },
        debug_info: TurnDebugInfo {
            section: String::from_str("my-prs"),
            checks,
            deciding_check: deciding,
        },
    };
    proof {
        assert(state_str@ == mstate_view(mv));
        assert(r.debug_info.checks@.map_values(|c: TurnDebugCheck| (c.label@, c.value@, c.result))
            =~= my_pr_checks(reviews@, requested_reviewers@, al, mv));
    }
    r
}

/// The viewer's review is individually outstanding.
pub open spec fn viewer_requested(requested: Seq<GitHubUser>, my_l: Seq<char>) -> bool {
    exists|i: int| 0 <= i < requested.len() && lower_of(requested[i].login@) == my_l
}

/// The outstanding review requests' logins, joined with commas.
pub open spec fn requested_names(requested: Seq<GitHubUser>) -> Seq<char> {
    join_comma(requested.map_values(|u: GitHubUser| u.login@))
}

/// The outstanding teams' names, joined with commas.
pub open spec fn team_names(teams: Seq<GitHubTeam>) -> Seq<char> {
    join_comma(teams.map_values(|t: GitHubTeam| t.name@))
}

/// Step: the viewer's review is individually requested.
pub open spec fn review_request_step1(requested: Seq<GitHubUser>, my_l: Seq<char>) -> (Seq<
    char,
>, Seq<char>, CheckResult) {
    let mine = viewer_requested(requested, my_l);
    let names = requested_names(requested);
    (
        "My review requested"@,
        if mine {
            "Your review is currently requested (pending: "@ + names + ")"@
        } else if names.len() > 0 {
            "Your review is not in the requested list (pending: "@ + names + ")"@
        } else {
            "No pending individual review requests"@
        },
        if mine {
            CheckResult::MyTurn
        } else {
            CheckResult::Skip
        },
    )
}

/// Step: the item was surfaced by an active review request and a team is
/// outstanding.
pub open spec fn review_request_step2(
    teams: Seq<GitHubTeam>,
    is_review_requested: bool,
) -> (Seq<char>, Seq<char>, CheckResult) {
    let via_team = is_review_requested && teams.len() > 0;
    (
        "My review requested (via team)"@,
        if via_team {
            "Requested via team (teams: "@ + team_names(teams) + ")"@
        } else if !is_review_requested {
            "PR found via reviewed-by search, not review-requested"@
        } else {
            "No team review requests"@
        },
        if via_team {
            CheckResult::MyTurn
        } else {
            CheckResult::TheirTurn
        },
    )
}

/// The trace of the review-request classifier.
pub open spec fn review_request_checks(
    requested: Seq<GitHubUser>,
    teams: Seq<GitHubTeam>,
    my_l: Seq<char>,
    is_review_requested: bool,
) -> Seq<(Seq<char>, Seq<char>, CheckResult)> {
    if viewer_requested(requested, my_l) {
        seq![review_request_step1(requested, my_l)]
    } else {
        seq![
            review_request_step1(requested, my_l),
            review_request_step2(teams, is_review_requested),
        ]
    }
}

/// The verdict of the review-request decision tree.
pub open spec fn review_request_verdict(
    requested: Seq<GitHubUser>,
    teams: Seq<GitHubTeam>,
    my_l: Seq<char>,
    is_review_requested: bool,
) -> TurnStatus {
    if viewer_requested(requested, my_l) {
        TurnStatus::MyTurn
    } else if is_review_requested && teams.len() > 0 {
        TurnStatus::MyTurn
    } else {
        TurnStatus::TheirTurn
    }
}

/// The label of the step that decided the review-request verdict.
pub open spec fn review_request_deciding(requested: Seq<GitHubUser>, my_l: Seq<char>) -> Seq<
    char,
> {
    if viewer_requested(requested, my_l) {
        "My review requested"@
    } else {
        "My review requested (via team)"@
    }
}

/// Joins the raw logins of the users with commas.
fn join_logins(users: &Vec<GitHubUser>) -> (s: String)
    ensures
        s@ == requested_names(users@),
{
    let ghost logins = users@.map_values(|u: GitHubUser| u.login@);
    let mut names: Vec<String> = Vec::new();
    let mut i: usize = 0;
    while i < users.len()
        invariant
            i <= users@.len(),
            logins == users@.map_values(|u: GitHubUser| u.login@),
            names@.map_values(|s: String| s@) =~= logins.take(i as int),
        decreases users@.len() - i,
    {
        let ghost oldn = names@;
        names.push(users[i].login.clone());
        proof {
            assert(oldn.map_values(|s: String| s@).len() == oldn.len());
            assert forall|t: int| 0 <= t < i + 1 implies names@.map_values(|s: String| s@)[t]
                == #[trigger] logins.take(i + 1)[t] by {
                assert(names@.map_values(|s: String| s@)[t] == names@[t]@);
                if t < i {
                    assert(names@[t] == oldn[t]);
                    assert(oldn.map_values(|s: String| s@)[t] == oldn[t]@);
                    assert(oldn.map_values(|s: String| s@)[t] == logins.take(i as int)[t]);
                } else {
                    assert(logins[t] == users@[t].login@);
                }
            }
            assert(names@.map_values(|s: String| s@) =~= logins.take(i + 1));
        }
        i += 1;
    }
    proof {
        assert(logins.take(users@.len() as int) =~= logins);
    }
    join_comma_strings(&names)
}

/// Joins the team names with commas.
fn join_team_names(teams: &Vec<GitHubTeam>) -> (s: String)
    ensures
        s@ == team_names(teams@),
{
    let ghost tn = teams@.map_values(|t2: GitHubTeam| t2.name@);
    let mut names: Vec<String> = Vec::new();
    let mut i: usize = 0;
    while i < teams.len()
        invariant
            i <= teams@.len(),
            tn == teams@.map_values(|t2: GitHubTeam| t2.name@),
            names@.map_values(|s: String| s@) =~= tn.take(i as int),
        decreases teams@.len() - i,
    {
        let ghost oldn = names@;
        names.push(teams[i].name.clone());
        proof {
            assert(oldn.map_values(|s: String| s@).len() == oldn.len());
            assert forall|t: int| 0 <= t < i + 1 implies names@.map_values(|s: String| s@)[t]
                == #[trigger] tn.take(i + 1)[t] by {
                assert(names@.map_values(|s: String| s@)[t] == names@[t]@);
                if t < i {
                    assert(names@[t] == oldn[t]);
                    assert(oldn.map_values(|s: String| s@)[t] == oldn[t]@);
                    assert(oldn.map_values(|s: String| s@)[t] == tn.take(i as int)[t]);
                } else {
                    assert(tn[t] == teams@[t].name@);
                }
            }
            assert(names@.map_values(|s: String| s@) =~= tn.take(i + 1));
        }
        i += 1;
    }
    proof {
        assert(tn.take(teams@.len() as int) =~= tn);
    }
    join_comma_strings(&names)
}

/// Classifies an item that surfaced as a review candidate: the submitted
/// reviews are accepted for interface symmetry but take no part in the
/// decision.
pub fn determine_review_request_turn(
    _reviews: &Vec<GitHubReview>,
    requested_reviewers: &Vec<GitHubUser>,
    requested_teams: &Vec<GitHubTeam>,
    my_username: &str,
    is_review_requested: bool,
) -> (r: TurnResult)
    ensures
        r.turn_status == review_request_verdict(
            requested_reviewers@,
            requested_teams@,
            lower_of(my_username@),
            is_review_requested,
        ),
        r.debug_info.section@ == "review-requests"@,
        r.debug_info.deciding_check@ == review_request_deciding(
            requested_reviewers@,
            lower_of(my_username@),
        ),
        r.debug_info.checks@.map_values(|c: TurnDebugCheck| (c.label@, c.value@, c.result))
            == review_request_checks(
            requested_reviewers@,
            requested_teams@,
            lower_of(my_username@),
            is_review_requested,
        ),
{
    let ghost ml = lower_of(my_username@);
    let my_l = lowercase(my_username);
    let mut checks: Vec<TurnDebugCheck> = Vec::new();

    // Check 1: is the viewer's review individually outstanding?
    let mut my_review_requested = false;
    let mut i: usize = 0;
    while i < requested_reviewers.len()
        invariant
            i <= requested_reviewers@.len(),
            my_l@ == ml,
            my_review_requested == exists|t: int|
                0 <= t < i && lower_of(requested_reviewers@[t].login@) == ml,
        decreases requested_reviewers@.len() - i,
    {
        let login_l = lowercase(requested_reviewers[i].login.as_str());
        if str_eq(login_l.as_str(), my_l.as_str()) {
            my_review_requested = true;
            assert(lower_of(requested_reviewers@[i as int].login@) == ml);
        }
        i += 1;
    }
    let names = join_logins(requested_reviewers);
    let value1: String = if my_review_requested {
        let mut s = String::from_str("Your review is currently requested (pending: ");
        s.append(names.as_str());
        s.append(")");
        s
    } else if !names.as_str().is_empty() {
        let mut s = String::from_str("Your review is not in the requested list (pending: ");
        s.append(names.as_str());
        s.append(")");
        s
    } else {
        String::from_str("No pending individual review requests")
    };
    checks.push(
        TurnDebugCheck {
            label: String::from_str("My review requested"),
            value: value1,
            result: if my_review_requested {
                CheckResult::MyTurn
            } else {
                CheckResult::Skip
            },
        },
    );
    if my_review_requested {
        let r = TurnResult {
            turn_status: TurnStatus::MyTurn,
            debug_info: TurnDebugInfo {
                section: String::from_str("review-requests"),
                checks,
                deciding_check: String::from_str("My review requested"),
            },
        };
        proof {
            assert(r.debug_info.checks@.map_values(
                |c: TurnDebugCheck| (c.label@, c.value@, c.result),
            ) =~= review_request_checks(
                requested_reviewers@,
                requested_teams@,
                ml,
                is_review_requested,
            ));
        }
        return r;
    }
    // Check 2: requested via a team?
    let tnames = join_team_names(requested_teams);
    let requested_via_team = is_review_requested && requested_teams.len() > 0;
    let value2: String = if requested_via_team {
        let mut s = String::from_str("Requested via team (teams: ");
        s.append(tnames.as_str());
        s.append(")");
        s
    } else if !is_review_requested {
        String::from_str("PR found via reviewed-by search, not review-requested")
    } else {
        String::from_str("No team review requests")
    };
    checks.push(
        TurnDebugCheck {
            label: String::from_str("My review requested (via team)"),
            value: value2,
            result: if requested_via_team {
                CheckResult::MyTurn
            } else {
                CheckResult::TheirTurn
            },
        },
    );
    let r = TurnResult {
        turn_status: if requested_via_team {
            TurnStatus::MyTurn
        } else {
            TurnStatus::TheirTurn
        },
        debug_info: TurnDebugInfo {
            section: String::from_str("review-requests"),
            checks,
            deciding_check: String::from_str("My review requested (via team)"),
        },
    };
    proof {
        assert(r.debug_info.checks@.map_values(|c: TurnDebugCheck| (c.label@, c.value@, c.result))
            =~= review_request_checks(requested_reviewers@, requested_teams@, ml,
        is_review_requested));
    }
    r
}

/// With no reviews at all, an authored item always waits on the other side,
/// decided by the first step.
pub proof fn lemma_no_submissions(
    reviews: Seq<GitHubReview>,
    requested: Seq<GitHubUser>,
    al: Seq<char>,
    m: Option<Seq<char>>,
)
    requires
        reviews.len() == 0,
    ensures
        my_pr_verdict(reviews, requested, al, m) == TurnStatus::TheirTurn,
        my_pr_deciding(reviews, requested, al, m) == "No reviews submitted yet"@,
{
}

/// When every submitter has been asked again, the item waits
/// on them, whatever the mergeable state says.
pub proof fn lemma_re_request_short_circuits(
    reviews: Seq<GitHubReview>,
    requested: Seq<GitHubUser>,
    al: Seq<char>,
    m: Option<Seq<char>>,
)
    requires
        submitted_reviewers(reviews, al).len() > 0,
        all_contained(submitted_reviewers(reviews, al), distinct_lowered_logins(requested)),
    ensures
        my_pr_verdict(reviews, requested, al, m) == TurnStatus::TheirTurn,
        my_pr_deciding(reviews, requested, al, m) == "All submitters re-requested"@,
{
}

/// A later comment never downgrades a submitter's recorded approval or
/// change request.
pub proof fn lemma_sticky_comment(reviews: Seq<GitHubReview>, al: Seq<char>, r: GitHubReview)
    requires
        counted_review(r, al),
        r.state@ == "COMMENTED"@,
        latest_for(reviews, al, lower_of(r.user.login@)) == Some("APPROVED"@) || latest_for(
            reviews,
            al,
            lower_of(r.user.login@),
        ) == Some("CHANGES_REQUESTED"@),
    ensures
        latest_for(reviews.push(r), al, lower_of(r.user.login@)) == latest_for(
            reviews,
            al,
            lower_of(r.user.login@),
        ),
{
    assert(reviews.push(r).drop_last() =~= reviews);
    assert(reviews.push(r).last() == r);
}

/// An outstanding change request puts the item on the author, whatever the
/// mergeable state says, as long as not every submitter was re-requested.
pub proof fn lemma_changes_requested_dominates(
    reviews: Seq<GitHubReview>,
    requested: Seq<GitHubUser>,
    al: Seq<char>,
    m: Option<Seq<char>>,
)
    requires
        submitted_reviewers(reviews, al).len() > 0,
        !all_contained(submitted_reviewers(reviews, al), distinct_lowered_logins(requested)),
        any_changes_requested(reviews, al),
    ensures
        my_pr_verdict(reviews, requested, al, m) == TurnStatus::MyTurn,
        my_pr_deciding(reviews, requested, al, m) == "Changes requested"@,
{
}

/// Once the first three steps pass through, only a `blocked` mergeable
/// state leaves the item with the other side; every other value, and an
/// absent one, puts it on the author.
pub proof fn lemma_mergeability_fallback(
    reviews: Seq<GitHubReview>,
    requested: Seq<GitHubUser>,
    al: Seq<char>,
    m: Option<Seq<char>>,
)
    requires
        submitted_reviewers(reviews, al).len() > 0,
        !all_contained(submitted_reviewers(reviews, al), distinct_lowered_logins(requested)),
        !any_changes_requested(reviews, al),
    ensures
        mstate_view(m) == "blocked"@ ==> my_pr_verdict(reviews, requested, al, m)
            == TurnStatus::TheirTurn,
        mstate_view(m) != "blocked"@ ==> my_pr_verdict(reviews, requested, al, m)
            == TurnStatus::MyTurn,
        my_pr_deciding(reviews, requested, al, m) == "Mergeable state: "@ + mstate_view(m),
{
}

/// A review candidate whose viewer is not individually requested is the
/// viewer's turn exactly when it came from the review-requested query and
/// a team is outstanding; surfacing only via reviewed-by never makes it
/// the viewer's turn.
/// The trace of an authored item always ends with the deciding step: its
/// last entry carries the verdict as outcome and the deciding label, and
/// every earlier entry was skipped.
pub proof fn lemma_my_pr_trace_invariant(
    reviews: Seq<GitHubReview>,
    requested: Seq<GitHubUser>,
    al: Seq<char>,
    m: Option<Seq<char>>,
)
    ensures
        my_pr_checks(reviews, requested, al, m).len() > 0,
        my_pr_checks(reviews, requested, al, m).last().2 == check_of_status(
            my_pr_verdict(reviews, requested, al, m),
        ),
        my_pr_checks(reviews, requested, al, m).last().0 == my_pr_deciding(
            reviews,
            requested,
            al,
            m,
        ),
        forall|i: int|
            0 <= i < my_pr_checks(reviews, requested, al, m).len() - 1 ==> my_pr_checks(
                reviews,
                requested,
                al,
                m,
            )[i].2 == CheckResult::Skip,
{
}

/// The trace of a review candidate likewise ends with the deciding step.
pub proof fn lemma_review_request_trace_invariant(
    requested: Seq<GitHubUser>,
    teams: Seq<GitHubTeam>,
    my_l: Seq<char>,
    is_review_requested: bool,
)
    ensures
        review_request_checks(requested, teams, my_l, is_review_requested).len() > 0,
        review_request_checks(requested, teams, my_l, is_review_requested).last().2
            == check_of_status(
            review_request_verdict(requested, teams, my_l, is_review_requested),
        ),
        review_request_checks(requested, teams, my_l, is_review_requested).last().0
            == review_request_deciding(requested, my_l),
        forall|i: int|
            0 <= i < review_request_checks(requested, teams, my_l, is_review_requested).len() - 1
                ==> review_request_checks(requested, teams, my_l, is_review_requested)[i].2
                == CheckResult::Skip,
{
}

pub proof fn lemma_review_request_via_team(
    requested: Seq<GitHubUser>,
    teams: Seq<GitHubTeam>,
    my_l: Seq<char>,
    is_review_requested: bool,
)
    requires
        !viewer_requested(requested, my_l),
    ensures
        review_request_verdict(requested, teams, my_l, is_review_requested) == (
        if is_review_requested && teams.len() > 0 {
            TurnStatus::MyTurn
        } else {
            TurnStatus::TheirTurn
        }),
        review_request_deciding(requested, my_l) == "My review requested (via team)"@,
{
}

} // verus!
