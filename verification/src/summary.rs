//! The review-state summarizer: reduces raw review events to a compact
//! status line, counting each submitter's latest state under the same
//! sticky rule as the classifier, here across all submitters, keyed by the
//! login as it appears.

use vstd::prelude::*;

use crate::classify::{is_submitted_spec, is_submitted_state, push_unique, sticky_keeps};
use crate::strutil::{dec_digits, join_comma, join_comma_strings, str_eq, u64_to_string};
use crate::types::{GitHubReview, GitHubTeam, GitHubUser};

verus! {

/// Those who submitted feedback, keyed by their login as written,
/// in order of first appearance, without repetition.
pub open spec fn all_reviewers(reviews: Seq<GitHubReview>) -> Seq<Seq<char>>
    decreases reviews.len(),
{
    if reviews.len() == 0 {
        Seq::empty()
    } else {
        let prev = all_reviewers(reviews.drop_last());
        if is_submitted_spec(reviews.last().state@) {
            push_unique(prev, reviews.last().user.login@)
        } else {
            prev
        }
    }
}

/// The latest submitted state for the submitter whose login is `k`, under
/// the sticky rule.
pub open spec fn latest_all(reviews: Seq<GitHubReview>, k: Seq<char>) -> Option<Seq<char>>
    decreases reviews.len(),
{
    if reviews.len() == 0 {
        None
    } else {
        let prev = latest_all(reviews.drop_last(), k);
        let r = reviews.last();
        if is_submitted_spec(r.state@) && r.user.login@ == k {
            if prev matches Some(p) && sticky_keeps(p, r.state@) {
                prev
            } else {
                Some(r.state@)
            }
        } else {
            prev
        }
    }
}

/// A submitter has a latest state exactly when they are among the
/// submitted keys.
pub proof fn lemma_latest_all_some(reviews: Seq<GitHubReview>, k: Seq<char>)
    ensures
        latest_all(reviews, k) is Some <==> all_reviewers(reviews).contains(k),
    decreases reviews.len(),
{
    if reviews.len() > 0 {
        lemma_latest_all_some(reviews.drop_last(), k);
        let n = reviews.len() - 1;
        let prev = all_reviewers(reviews.drop_last());
        if is_submitted_spec(reviews[n].state@) {
            let kn = reviews[n].user.login@;
            if kn == k {
                if !prev.contains(k) {
                    assert(push_unique(prev, k).last() == k);
                }
            } else {
                if !prev.contains(kn) {
                    if prev.contains(k) {
                        assert(push_unique(prev, kn)[prev.index_of(k)] == k);
                    }
                    if push_unique(prev, kn).contains(k) {
                        let j = choose|j: int|
                            0 <= j < push_unique(prev, kn).len() && push_unique(prev, kn)[j] == k;
                        assert(j < prev.len() && prev[j] == k);
                    }
                }
            }
        }
    }
}

/// The submitted keys never repeat.
pub proof fn lemma_all_reviewers_distinct(reviews: Seq<GitHubReview>)
    ensures
        forall|i: int, j: int|
            0 <= i < j < all_reviewers(reviews).len() ==> all_reviewers(reviews)[i]
                != all_reviewers(reviews)[j],
    decreases reviews.len(),
{
    if reviews.len() > 0 {
        lemma_all_reviewers_distinct(reviews.drop_last());
        let prev = all_reviewers(reviews.drop_last());
        if is_submitted_spec(reviews.last().state@) {
            let kn = reviews.last().user.login@;
            if !prev.contains(kn) {
                assert(forall|i: int| 0 <= i < prev.len() ==> prev[i] != kn);
            }
        }
    }
}

/// How many of the listed submitters have `st` as their latest state.
pub open spec fn count_matching(keys: Seq<Seq<char>>, reviews: Seq<GitHubReview>, st: Seq<
    char,
>) -> nat
    decreases keys.len(),
{
    if keys.len() == 0 {
        0
    } else {
        count_matching(keys.drop_last(), reviews, st) + (if latest_all(reviews, keys.last())
            == Some(st) {
            1nat
        } else {
            0nat
        })
    }
}

/// How many submitters' latest state is `st`.
pub open spec fn state_count(reviews: Seq<GitHubReview>, st: Seq<char>) -> nat {
    count_matching(all_reviewers(reviews), reviews, st)
}

/// A singleton or empty part.
pub open spec fn maybe_part(present: bool, text: Seq<char>) -> Seq<Seq<char>> {
    if present {
        seq![text]
    } else {
        Seq::empty()
    }
}

/// The rendered pending clause: outstanding individuals plus teams, with
/// a team suffix when teams are outstanding.
pub open spec fn pending_part(users: Seq<GitHubUser>, teams: Seq<GitHubTeam>) -> Seq<char> {
    dec_digits((users.len() + teams.len()) as nat) + " pending"@ + (if teams.len() > 0 {
        " ("@ + dec_digits(teams.len() as nat) + " team"@ + (if teams.len() > 1 {
            "s"@
        } else {
            Seq::<char>::empty()
        }) + ")"@
    } else {
        Seq::<char>::empty()
    })
}

/// The ordered clause list of the summary.
pub open spec fn summary_parts(
    reviews: Seq<GitHubReview>,
    users: Seq<GitHubUser>,
    teams: Seq<GitHubTeam>,
) -> Seq<Seq<char>> {
    maybe_part(
        state_count(reviews, "APPROVED"@) > 0,
        dec_digits(state_count(reviews, "APPROVED"@)) + " approved"@,
    ) + maybe_part(
        state_count(reviews, "CHANGES_REQUESTED"@) > 0,
        dec_digits(state_count(reviews, "CHANGES_REQUESTED"@)) + " changes requested"@,
    ) + maybe_part(
        state_count(reviews, "COMMENTED"@) > 0,
        dec_digits(state_count(reviews, "COMMENTED"@)) + " commented"@,
    ) + maybe_part(users.len() + teams.len() > 0, pending_part(users, teams))
}

/// The complete summary line: the comma-joined clause list, or the fixed
/// text when nothing applies.
pub open spec fn review_summary_spec(
    reviews: Seq<GitHubReview>,
    users: Seq<GitHubUser>,
    teams: Seq<GitHubTeam>,
) -> Seq<char> {
    let parts = summary_parts(reviews, users, teams);
    if parts.len() == 0 {
        "No reviews"@
    } else {
        join_comma(parts)
    }
}

/// Finds the position of the first pair whose key equals `k`.
fn find_key(v: &Vec<(String, String)>, k: &str) -> (r: Option<usize>)
    ensures
        match r {
            Some(idx) => idx < v@.len() && v@[idx as int].0@ == k@,
            None => forall|j: int| 0 <= j < v@.len() ==> v@[j].0@ != k@,
        },
{
    let mut idx: usize = 0;
    while idx < v.len()
        invariant
            idx <= v@.len(),
            forall|j: int| 0 <= j < idx ==> v@[j].0@ != k@,
        decreases v@.len() - idx,
    {
        if str_eq(v[idx].0.as_str(), k) {
            return Some(idx);
        }
        idx += 1;
    }
    None
}

/// Collects, for each submitter in order of first appearance,
/// their latest state under the sticky rule, keyed by the login as
/// written.
fn collect_latest_all(reviews: &Vec<GitHubReview>) -> (v: Vec<(String, String)>)
    ensures
        v@.map_values(|p: (String, String)| p.0@) == all_reviewers(reviews@),
        forall|j: int| 0 <= j < v@.len() ==> Some(v@[j].1@) == latest_all(reviews@, v@[j].0@),
{
    let mut v: Vec<(String, String)> = Vec::new();
    let mut i: usize = 0;
    while i < reviews.len()
        invariant
            i <= reviews@.len(),
            v@.map_values(|p: (String, String)| p.0@) == all_reviewers(reviews@.take(i as int)),
            forall|j: int|
                0 <= j < v@.len() ==> Some(#[trigger] v@[j].1@) == latest_all(
                    reviews@.take(i as int),
                    v@[j].0@,
                ),
        decreases reviews@.len() - i,
    {
        let ghost pre = reviews@.take(i as int);
        let ghost post = reviews@.take(i + 1);
        proof {
            assert(post.drop_last() =~= pre);
            assert(post.last() == reviews@[i as int]);
        }
        if is_submitted_state(reviews[i].state.as_str()) {
            let login = reviews[i].user.login.clone();
            let ghost key = login@;
            let ghost keys = v@.map_values(|p: (String, String)| p.0@);
            proof {
                lemma_all_reviewers_distinct(pre);
            }
            if let Some(idx) = find_key(&v, login.as_str()) {
                proof {
                    assert(keys[idx as int] == key);
                    assert(keys.contains(key));
                    assert(push_unique(all_reviewers(pre), key) == all_reviewers(pre));
                }
                let ghost old_val = v@[idx as int].1@;
                let keep_prev = str_eq(reviews[i].state.as_str(), "COMMENTED") && (str_eq(
                    v[idx].1.as_str(),
                    "CHANGES_REQUESTED",
                ) || str_eq(v[idx].1.as_str(), "APPROVED"));
                assert(keep_prev == sticky_keeps(old_val, reviews@[i as int].state@));
                if !keep_prev {
                    let st = reviews[i].state.clone();
                    v[idx] = (login, st);
                    proof {
                        assert(v@.map_values(|p: (String, String)| p.0@) =~= keys);
                    }
                }
                proof {
                    assert forall|j: int| 0 <= j < v@.len() implies Some(#[trigger] v@[j].1@)
                        == latest_all(post, v@[j].0@) by {
                        if v@[j].0@ == key {
                            assert(keys[j] == key && keys[idx as int] == key);
                            assert(j == idx as int);
                            assert(latest_all(pre, key) == Some(old_val));
                        } else {
                            assert(latest_all(post, v@[j].0@) == latest_all(pre, v@[j].0@));
                        }
                    }
                }
            } else {
                proof {
                    assert(forall|j: int| 0 <= j < keys.len() ==> keys[j] != key);
                    if keys.contains(key) {
                        let j = choose|j: int| 0 <= j < keys.len() && keys[j] == key;
                        assert(false);
                    }
                    lemma_latest_all_some(pre, key);
                }
                let st = reviews[i].state.clone();
                v.push((login, st));
                proof {
                    assert(v@.map_values(|p: (String, String)| p.0@) =~= all_reviewers(post));
                    assert forall|j: int| 0 <= j < v@.len() implies Some(#[trigger] v@[j].1@)
                        == latest_all(post, v@[j].0@) by {
                        if j < v@.len() - 1 {
                            assert(v@[j].0@ != key);
                        }
                    }
                }
            }
        }
        i += 1;
    }
    proof {
        assert(reviews@.take(reviews@.len() as int) =~= reviews@);
    }
    v
}

/// Counts the entries whose recorded state equals `st`.
fn count_state_entries(v: &Vec<(String, String)>, reviews: &Vec<GitHubReview>, st: &str) -> (n:
    usize)
    requires
        v@.map_values(|p: (String, String)| p.0@) == all_reviewers(reviews@),
        forall|j: int| 0 <= j < v@.len() ==> Some(#[trigger] v@[j].1@) == latest_all(reviews@, v@[j].0@),
    ensures
        n == count_matching(all_reviewers(reviews@), reviews@, st@),
{
    let ghost keys = all_reviewers(reviews@);
    let mut n: usize = 0;
    let mut j: usize = 0;
    while j < v.len()
        invariant
            j <= v@.len(),
            n <= j,
            keys == all_reviewers(reviews@),
            v@.map_values(|p: (String, String)| p.0@) == keys,
            forall|t: int|
                0 <= t < v@.len() ==> Some(#[trigger] v@[t].1@) == latest_all(reviews@, v@[t].0@),
            n == count_matching(keys.take(j as int), reviews@, st@),
        decreases v@.len() - j,
    {
        proof {
            assert(keys.take(j + 1).drop_last() =~= keys.take(j as int));
            assert(keys.take(j + 1).last() == keys[j as int]);
            assert(keys[j as int] == v@[j as int].0@);
        }
        if str_eq(v[j].1.as_str(), st) {
            n += 1;
        }
        j += 1;
    }
    proof {
        assert(keys.take(keys.len() as int) =~= keys);
    }
    n
}

/// Renders the review-state summary: per-state counts of submitters'
/// latest states in fixed order, then the pending count with its team
/// suffix, or the fixed text when nothing applies.
pub fn build_review_summary(
    reviews: &Vec<GitHubReview>,
    requested_reviewers: &Vec<GitHubUser>,
    requested_teams: &Vec<GitHubTeam>,
) -> (s: String)
    requires
        requested_reviewers@.len() + requested_teams@.len() <= usize::MAX,
    ensures
        s@ == review_summary_spec(reviews@, requested_reviewers@, requested_teams@),
{
    let latest = collect_latest_all(reviews);
    let a = count_state_entries(&latest, reviews, "APPROVED");
    let c = count_state_entries(&latest, reviews, "CHANGES_REQUESTED");
    let o = count_state_entries(&latest, reviews, "COMMENTED");
    let ghost pa = maybe_part(
        state_count(reviews@, "APPROVED"@) > 0,
        dec_digits(state_count(reviews@, "APPROVED"@)) + " approved"@,
    );
    let ghost pc = maybe_part(
        state_count(reviews@, "CHANGES_REQUESTED"@) > 0,
        dec_digits(state_count(reviews@, "CHANGES_REQUESTED"@)) + " changes requested"@,
    );
    let ghost po = maybe_part(
        state_count(reviews@, "COMMENTED"@) > 0,
        dec_digits(state_count(reviews@, "COMMENTED"@)) + " commented"@,
    );
    let ghost pp = maybe_part(
        requested_reviewers@.len() + requested_teams@.len() > 0,
        pending_part(requested_reviewers@, requested_teams@),
    );
    let mut parts: Vec<String> = Vec::new();
    if a > 0 {
        let mut s = u64_to_string(a as u64);
        s.append(" approved");
        parts.push(s);
    }
    proof {
        assert(parts@.map_values(|s: String| s@) =~= pa);
    }
    if c > 0 {
        let mut s = u64_to_string(c as u64);
        s.append(" changes requested");
        parts.push(s);
    }
    proof {
        assert(parts@.map_values(|s: String| s@) =~= pa + pc);
    }
    if o > 0 {
        let mut s = u64_to_string(o as u64);
        s.append(" commented");
        parts.push(s);
    }
    proof {
        assert(parts@.map_values(|s: String| s@) =~= pa + pc + po);
    }
    let pending: usize = requested_reviewers.len() + requested_teams.len();
    if pending > 0 {
        let mut p = u64_to_string(pending as u64);
        p.append(" pending");
        if requested_teams.len() > 0 {
            p.append(" (");
            let t = u64_to_string(requested_teams.len() as u64);
            p.append(t.as_str());
            p.append(" team");
            if requested_teams.len() > 1 {
                p.append("s");
            }
            p.append(")");
        }
        proof {
            assert(p@ == pending_part(requested_reviewers@, requested_teams@));
        }
        parts.push(p);
    }
    proof {
        assert(parts@.map_values(|s: String| s@) =~= pa + pc + po + pp);
    }
    if parts.len() == 0 {
        String::from_str("No reviews")
    } else {
        join_comma_strings(&parts)
    }
}

} // verus!
