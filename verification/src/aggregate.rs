//! The search aggregator and result assembler: keeps only real pull
//! requests, merges and deduplicates the two review queries with
//! first-occurrence-wins semantics, records review-requested provenance,
//! drops the viewer's own items, collects enrichment results all-or-
//! nothing, and sorts each list with the two-key comparator.

use vstd::multiset::Multiset;
use vstd::prelude::*;

use crate::strutil::{lex_le, lemma_lex_le_total, lemma_lex_le_trans, lower_of, lowercase, str_eq,
    str_lex_le};
use crate::types::{DashboardPR, DashboardResponse, GitHubSearchItem, ReviewCandidate, TurnStatus};

verus! {

/// Some element carries this identity.
pub open spec fn contains_id(s: Seq<GitHubSearchItem>, id: u64) -> bool {
    exists|i: int| 0 <= i < s.len() && s[i].id == id
}

/// Deduplication by identity, first occurrence wins.
pub open spec fn dedup_by_id(s: Seq<GitHubSearchItem>) -> Seq<GitHubSearchItem>
    decreases s.len(),
{
    if s.len() == 0 {
        Seq::empty()
    } else {
        let prev = dedup_by_id(s.drop_last());
        if contains_id(prev, s.last().id) {
            prev
        } else {
            prev.push(s.last())
        }
    }
}

/// The items not authored by the viewer, in order.
pub open spec fn drop_viewer(s: Seq<GitHubSearchItem>, viewer_l: Seq<char>) -> Seq<
    GitHubSearchItem,
>
    decreases s.len(),
{
    if s.len() == 0 {
        Seq::empty()
    } else {
        let prev = drop_viewer(s.drop_last(), viewer_l);
        if lower_of(s.last().user.login@) != viewer_l {
            prev.push(s.last())
        } else {
            prev
        }
    }
}

/// The items that reference an associated pull request, in order.
pub open spec fn keep_pulls(s: Seq<GitHubSearchItem>) -> Seq<GitHubSearchItem>
    decreases s.len(),
{
    if s.len() == 0 {
        Seq::empty()
    } else {
        let prev = keep_pulls(s.drop_last());
        if s.last().pull_request is Some {
            prev.push(s.last())
        } else {
            prev
        }
    }
}

/// Deduplication keeps exactly the identities that occurred.
pub proof fn lemma_dedup_complete(s: Seq<GitHubSearchItem>, id: u64)
    ensures
        contains_id(dedup_by_id(s), id) == contains_id(s, id),
    decreases s.len(),
{
    if s.len() > 0 {
        lemma_dedup_complete(s.drop_last(), id);
        let n = s.len() - 1;
        assert(forall|i: int| 0 <= i < n ==> s.drop_last()[i] == s[i]);
        let prev = dedup_by_id(s.drop_last());
        if contains_id(s, id) {
            let i = choose|i: int| 0 <= i < s.len() && s[i].id == id;
            if i < n {
                assert(contains_id(s.drop_last(), id));
                if !contains_id(prev, s[n].id) {
                    let j = choose|j: int| 0 <= j < prev.len() && prev[j].id == id;
                    assert(prev.push(s[n])[j].id == id);
                }
            } else {
                if contains_id(prev, s[n].id) {
                } else {
                    assert(prev.push(s[n]).last().id == id);
                }
            }
        }
        if contains_id(dedup_by_id(s), id) {
            let j = choose|j: int| 0 <= j < dedup_by_id(s).len() && dedup_by_id(s)[j].id == id;
            if contains_id(prev, s[n].id) {
            } else {
                if j < prev.len() {
                    assert(prev[j].id == id);
                } else {
                    assert(s[n].id == id);
                }
            }
        }
    }
}

/// Deduplication never repeats an identity.
pub proof fn lemma_dedup_distinct(s: Seq<GitHubSearchItem>)
    ensures
        forall|i: int, j: int|
            0 <= i < j < dedup_by_id(s).len() ==> dedup_by_id(s)[i].id != dedup_by_id(s)[j].id,
    decreases s.len(),
{
    if s.len() > 0 {
        lemma_dedup_distinct(s.drop_last());
        let prev = dedup_by_id(s.drop_last());
        if !contains_id(prev, s.last().id) {
            assert(forall|i: int| 0 <= i < prev.len() ==> prev[i].id != s.last().id);
        }
    }
}

/// Every deduplicated element occurred in the input.
pub proof fn lemma_dedup_elements(s: Seq<GitHubSearchItem>)
    ensures
        forall|j: int| 0 <= j < dedup_by_id(s).len() ==> s.contains(#[trigger] dedup_by_id(s)[j]),
    decreases s.len(),
{
    if s.len() > 0 {
        lemma_dedup_elements(s.drop_last());
        let prev = dedup_by_id(s.drop_last());
        assert forall|j: int| 0 <= j < dedup_by_id(s).len() implies s.contains(
            #[trigger] dedup_by_id(s)[j],
        ) by {
            if j < prev.len() {
                assert(s.drop_last().contains(prev[j]));
                let t = choose|t: int| 0 <= t < s.drop_last().len() && s.drop_last()[t] == prev[j];
                assert(s[t] == prev[j]);
            } else {
                assert(dedup_by_id(s)[j] == s.last());
            }
        }
    }
}

/// A kept element is the earliest occurrence of its identity: no earlier
/// input element carries the same one.
pub proof fn lemma_dedup_first_wins(s: Seq<GitHubSearchItem>)
    ensures
        forall|j: int|
            0 <= j < dedup_by_id(s).len() ==> exists|i: int|
                0 <= i < s.len() && s[i] == #[trigger] dedup_by_id(s)[j] && (forall|t: int|
                    0 <= t < i ==> s[t].id != dedup_by_id(s)[j].id),
    decreases s.len(),
{
    if s.len() > 0 {
        lemma_dedup_first_wins(s.drop_last());
        let n = s.len() - 1;
        assert(forall|i: int| 0 <= i < n ==> s.drop_last()[i] == s[i]);
        let prev = dedup_by_id(s.drop_last());
        assert forall|j: int| 0 <= j < dedup_by_id(s).len() implies exists|i: int|
            0 <= i < s.len() && s[i] == #[trigger] dedup_by_id(s)[j] && (forall|t: int|
                0 <= t < i ==> s[t].id != dedup_by_id(s)[j].id) by {
            if j < prev.len() {
                let i = choose|i: int|
                    0 <= i < s.drop_last().len() && s.drop_last()[i] == prev[j] && (forall|t: int|
                        0 <= t < i ==> s.drop_last()[t].id != prev[j].id);
                assert(s[i] == prev[j]);
                assert(forall|t: int| 0 <= t < i ==> s[t].id != prev[j].id);
            } else {
                assert(dedup_by_id(s)[j] == s.last());
                lemma_dedup_complete(s.drop_last(), s.last().id);
                assert(!contains_id(s.drop_last(), s.last().id));
                assert(forall|t: int| 0 <= t < n ==> s[t].id != s.last().id);
                assert(s[n] == dedup_by_id(s)[j]);
            }
        }
    }
}

/// What survives the viewer filter: exactly the elements not authored by
/// the viewer, in order.
pub proof fn lemma_drop_viewer_membership(
    s: Seq<GitHubSearchItem>,
    viewer_l: Seq<char>,
    id: u64,
)
    ensures
        contains_id(drop_viewer(s, viewer_l), id) == exists|i: int|
            0 <= i < s.len() && s[i].id == id && lower_of(s[i].user.login@) != viewer_l,
    decreases s.len(),
{
    if s.len() > 0 {
        lemma_drop_viewer_membership(s.drop_last(), viewer_l, id);
        let n = s.len() - 1;
        assert(forall|i: int| 0 <= i < n ==> s.drop_last()[i] == s[i]);
        let prev = drop_viewer(s.drop_last(), viewer_l);
        if exists|i: int|
            0 <= i < s.len() && s[i].id == id && lower_of(s[i].user.login@) != viewer_l {
            let i = choose|i: int|
                0 <= i < s.len() && s[i].id == id && lower_of(s[i].user.login@) != viewer_l;
            if i < n {
                assert(contains_id(prev, id));
                let j = choose|j: int| 0 <= j < prev.len() && prev[j].id == id;
                if lower_of(s[n].user.login@) != viewer_l {
                    assert(prev.push(s[n])[j].id == id);
                }
            } else {
                assert(prev.push(s[n]).last().id == id);
            }
        }
        if contains_id(drop_viewer(s, viewer_l), id) {
            let j = choose|j: int|
                0 <= j < drop_viewer(s, viewer_l).len() && drop_viewer(s, viewer_l)[j].id == id;
            if lower_of(s[n].user.login@) != viewer_l {
                if j < prev.len() {
                    assert(prev[j].id == id);
                } else {
                    assert(s[n].id == id);
                }
            } else {
                assert(prev[j].id == id);
            }
        }
    }
}

/// The viewer filter keeps no item of the viewer, distinctness of
/// identities, and only elements of the input.
pub proof fn lemma_drop_viewer_shape(s: Seq<GitHubSearchItem>, viewer_l: Seq<char>)
    ensures
        forall|j: int|
            0 <= j < drop_viewer(s, viewer_l).len() ==> lower_of(
                #[trigger] drop_viewer(s, viewer_l)[j].user.login@,
            ) != viewer_l,
        forall|j: int|
            0 <= j < drop_viewer(s, viewer_l).len() ==> s.contains(
                #[trigger] drop_viewer(s, viewer_l)[j],
            ),
        (forall|i: int, j: int| 0 <= i < j < s.len() ==> s[i].id != s[j].id) ==> (forall|
            i: int,
            j: int,
        |
            0 <= i < j < drop_viewer(s, viewer_l).len() ==> drop_viewer(s, viewer_l)[i].id
                != drop_viewer(s, viewer_l)[j].id),
    decreases s.len(),
{
    if s.len() > 0 {
        lemma_drop_viewer_shape(s.drop_last(), viewer_l);
        let n = s.len() - 1;
        assert(forall|i: int| 0 <= i < n ==> s.drop_last()[i] == s[i]);
        let prev = drop_viewer(s.drop_last(), viewer_l);
        assert forall|j: int| 0 <= j < drop_viewer(s, viewer_l).len() implies s.contains(
            #[trigger] drop_viewer(s, viewer_l)[j],
        ) by {
            if j < prev.len() {
                assert(s.drop_last().contains(prev[j]));
                let t = choose|t: int| 0 <= t < s.drop_last().len() && s.drop_last()[t] == prev[j];
                assert(s[t] == prev[j]);
            } else {
                assert(drop_viewer(s, viewer_l)[j] == s.last());
            }
        }
        if forall|i: int, j: int| 0 <= i < j < s.len() ==> s[i].id != s[j].id {
            if lower_of(s[n].user.login@) != viewer_l {
                assert forall|i: int| 0 <= i < prev.len() implies prev[i].id != s[n].id by {
                    assert(s.drop_last().contains(prev[i]));
                    let t = choose|t: int|
                        0 <= t < s.drop_last().len() && s.drop_last()[t] == prev[i];
                    assert(s[t] == prev[i]);
                }
            }
        }
    }
}

/// Decides whether a value occurs in the vector.
fn vec_contains_u64(v: &Vec<u64>, x: u64) -> (r: bool)
    ensures
        r == v@.contains(x),
{
    let mut i: usize = 0;
    while i < v.len()
        invariant
            i <= v@.len(),
            forall|j: int| 0 <= j < i ==> v@[j] != x,
        decreases v@.len() - i,
    {
        if v[i] == x {
            return true;
        }
        i += 1;
    }
    false
}

/// Decides whether some element carries this identity.
fn contains_item_id(v: &Vec<GitHubSearchItem>, id: u64) -> (r: bool)
    ensures
        r == contains_id(v@, id),
{
    let mut i: usize = 0;
    while i < v.len()
        invariant
            i <= v@.len(),
            forall|j: int| 0 <= j < i ==> v@[j].id != id,
        decreases v@.len() - i,
    {
        if v[i].id == id {
            return true;
        }
        i += 1;
    }
    false
}

/// Keeps only the search results that reference an associated pull
/// request.
pub fn filter_pull_requests(items: Vec<GitHubSearchItem>) -> (out: Vec<GitHubSearchItem>)
    ensures
        out@ == keep_pulls(items@),
{
    let ghost all = items@;
    let mut src = items;
    let mut out: Vec<GitHubSearchItem> = Vec::new();
    let ghost k: int = 0;
    while src.len() > 0
        invariant
            0 <= k <= all.len(),
            src@ =~= all.skip(k),
            out@ == keep_pulls(all.take(k)),
        decreases src@.len(),
    {
        let it = src.remove(0);
        proof {
            assert(it == all[k]);
            assert(all.take(k + 1).drop_last() =~= all.take(k));
            assert(all.take(k + 1).last() == all[k]);
            assert(src@ =~= all.skip(k + 1));
        }
        if it.pull_request.is_some() {
            out.push(it);
        }
        proof {
            k = k + 1;
        }
    }
    proof {
        assert(all.take(all.len() as int) =~= all);
    }
    out
}

/// Merges the review-requested and reviewed-by results: first occurrence
/// wins on identity, the viewer's own items are dropped, and each kept
/// item is flagged with whether its identity came from the
/// review-requested query.
pub fn merge_review_items(
    review_requests: Vec<GitHubSearchItem>,
    reviewed_by: Vec<GitHubSearchItem>,
    viewer: &str,
) -> (out: Vec<ReviewCandidate>)
    requires
        review_requests@.len() + reviewed_by@.len() <= usize::MAX,
    ensures
        out@.map_values(|c: ReviewCandidate| c.item) == drop_viewer(
            dedup_by_id(review_requests@ + reviewed_by@),
            lower_of(viewer@),
        ),
        forall|j: int|
            0 <= j < out@.len() ==> #[trigger] out@[j].is_review_requested == contains_id(
                review_requests@,
                out@[j].item.id,
            ),
{
    let ghost rr0 = review_requests@;
    let ghost all = review_requests@ + reviewed_by@;
    let ghost vl = lower_of(viewer@);
    // record which identities came from the review-requested query
    let mut rr_ids: Vec<u64> = Vec::new();
    let mut i: usize = 0;
    while i < review_requests.len()
        invariant
            i <= rr0.len(),
            rr0 == review_requests@,
            rr_ids@.len() == i,
            forall|j: int| 0 <= j < i ==> rr_ids@[j] == rr0[j].id,
        decreases rr0.len() - i,
    {
        rr_ids.push(review_requests[i].id);
        i += 1;
    }
    proof {
        assert forall|id: u64| #[trigger] rr_ids@.contains(id) == contains_id(rr0, id) by {
            if rr_ids@.contains(id) {
                let j = choose|j: int| 0 <= j < rr_ids@.len() && rr_ids@[j] == id;
                assert(rr0[j].id == id);
            }
            if contains_id(rr0, id) {
                let j = choose|j: int| 0 <= j < rr0.len() && rr0[j].id == id;
                assert(rr_ids@[j] == id);
            }
        }
    }
    // concatenate, then deduplicate with first occurrence winning
    let mut src = review_requests;
    let mut rest = reviewed_by;
    src.append(&mut rest);
    assert(src@ == all);
    let mut merged: Vec<GitHubSearchItem> = Vec::new();
    let ghost k: int = 0;
    while src.len() > 0
        invariant
            0 <= k <= all.len(),
            src@ =~= all.skip(k),
            merged@ == dedup_by_id(all.take(k)),
        decreases src@.len(),
    {
        let it = src.remove(0);
        proof {
            assert(it == all[k]);
            assert(all.take(k + 1).drop_last() =~= all.take(k));
            assert(all.take(k + 1).last() == all[k]);
            assert(src@ =~= all.skip(k + 1));
        }
        if !contains_item_id(&merged, it.id) {
            merged.push(it);
        }
        proof {
            k = k + 1;
        }
    }
    proof {
        assert(all.take(all.len() as int) =~= all);
    }
    // drop the viewer's own items and attach provenance
    let viewer_l = lowercase(viewer);
    let ghost d = dedup_by_id(all);
    let mut out: Vec<ReviewCandidate> = Vec::new();
    let ghost k2: int = 0;
    while merged.len() > 0
        invariant
            0 <= k2 <= d.len(),
            merged@ =~= d.skip(k2),
            viewer_l@ == vl,
            out@.map_values(|c: ReviewCandidate| c.item) == drop_viewer(d.take(k2), vl),
            forall|j: int|
                0 <= j < out@.len() ==> #[trigger] out@[j].is_review_requested == contains_id(
                    rr0,
                    out@[j].item.id,
                ),
            forall|id: u64| #[trigger] rr_ids@.contains(id) == contains_id(rr0, id),
        decreases merged@.len(),
    {
        let it = merged.remove(0);
        proof {
            assert(it == d[k2]);
            assert(d.take(k2 + 1).drop_last() =~= d.take(k2));
            assert(d.take(k2 + 1).last() == d[k2]);
            assert(merged@ =~= d.skip(k2 + 1));
        }
        let ghost oldmap = out@.map_values(|c: ReviewCandidate| c.item);
        let login_l = lowercase(it.user.login.as_str());
        if !str_eq(login_l.as_str(), viewer_l.as_str()) {
            let flag = vec_contains_u64(&rr_ids, it.id);
            let ghost itg = it;
            out.push(ReviewCandidate { item: it, is_review_requested: flag });
            proof {
                assert forall|t: int| 0 <= t < out@.len() implies out@.map_values(
                    |c: ReviewCandidate| c.item,
                )[t] == #[trigger] drop_viewer(d.take(k2 + 1), vl)[t] by {
                    assert(out@.map_values(|c: ReviewCandidate| c.item)[t] == out@[t].item);
                    if t < out@.len() - 1 {
                        assert(out@[t].item == oldmap[t]);
                    } else {
                        assert(out@[t].item == itg);
                    }
                }
                assert(out@.map_values(|c: ReviewCandidate| c.item) =~= drop_viewer(
                    d.take(k2 + 1),
                    vl,
                ));
            }
        } else {
            proof {
                assert(out@.map_values(|c: ReviewCandidate| c.item) =~= drop_viewer(
                    d.take(k2 + 1),
                    vl,
                ));
            }
        }
        proof {
            k2 = k2 + 1;
        }
    }
    proof {
        assert(d.take(d.len() as int) =~= d);
    }
    out
}

/// An identity surfacing in both review queries keeps exactly one copy
/// among the candidates, flagged as actively review-requested; the kept
/// copy is an element of the concatenated input.
pub proof fn lemma_merge_dedup(
    out: Seq<ReviewCandidate>,
    rr: Seq<GitHubSearchItem>,
    rb: Seq<GitHubSearchItem>,
    viewer_l: Seq<char>,
    id: u64,
)
    requires
        out.map_values(|c: ReviewCandidate| c.item) == drop_viewer(dedup_by_id(rr + rb), viewer_l),
        forall|j: int|
            0 <= j < out.len() ==> #[trigger] out[j].is_review_requested == contains_id(
                rr,
                out[j].item.id,
            ),
        contains_id(rr, id),
        forall|i: int|
            0 <= i < (rr + rb).len() && (rr + rb)[i].id == id ==> lower_of(
                #[trigger] (rr + rb)[i].user.login@,
            ) != viewer_l,
    ensures
        exists|j: int| 0 <= j < out.len() && out[j].item.id == id,
        forall|j1: int, j2: int|
            0 <= j1 < out.len() && 0 <= j2 < out.len() && out[j1].item.id == id && out[j2].item.id
                == id ==> j1 == j2,
        forall|j: int|
            0 <= j < out.len() && out[j].item.id == id ==> out[j].is_review_requested,
        forall|j: int|
            0 <= j < out.len() && #[trigger] out[j].item.id == id ==> exists|i: int|
                0 <= i < (rr + rb).len() && (rr + rb)[i] == out[j].item && (forall|t: int|
                    0 <= t < i ==> (rr + rb)[t].id != id),
{
    let s = rr + rb;
    let m = out.map_values(|c: ReviewCandidate| c.item);
    let d = dedup_by_id(s);
    lemma_dedup_complete(s, id);
    lemma_dedup_distinct(s);
    lemma_dedup_elements(s);
    assert(contains_id(s, id)) by {
        let i = choose|i: int| 0 <= i < rr.len() && rr[i].id == id;
        assert(s[i].id == id);
    }
    assert(contains_id(d, id));
    lemma_drop_viewer_membership(d, viewer_l, id);
    assert forall|i: int| 0 <= i < d.len() && #[trigger] d[i].id == id implies lower_of(
        d[i].user.login@,
    ) != viewer_l by {
        assert(s.contains(d[i]));
        let t = choose|t: int| 0 <= t < s.len() && s[t] == d[i];
        assert(s[t].id == id);
    }
    assert(contains_id(m, id)) by {
        let i = choose|i: int| 0 <= i < d.len() && d[i].id == id;
    }
    let j = choose|j: int| 0 <= j < m.len() && m[j].id == id;
    assert(out[j].item.id == id);
    lemma_drop_viewer_shape(d, viewer_l);
    assert forall|j1: int, j2: int|
        0 <= j1 < out.len() && 0 <= j2 < out.len() && out[j1].item.id == id && out[j2].item.id
            == id implies j1 == j2 by {
        assert(m[j1].id == id && m[j2].id == id);
        if j1 < j2 {
            assert(drop_viewer(d, viewer_l)[j1].id != drop_viewer(d, viewer_l)[j2].id);
        }
        if j2 < j1 {
            assert(drop_viewer(d, viewer_l)[j2].id != drop_viewer(d, viewer_l)[j1].id);
        }
    }
    lemma_dedup_first_wins(s);
    assert forall|j3: int| 0 <= j3 < out.len() && #[trigger] out[j3].item.id == id implies exists|
        i: int,
    |
        0 <= i < s.len() && s[i] == out[j3].item && (forall|t: int|
            0 <= t < i ==> s[t].id != id) by {
        assert(m[j3] == out[j3].item);
        assert(drop_viewer(d, viewer_l)[j3] == m[j3]);
        assert(d.contains(m[j3]));
        let jd = choose|jd: int| 0 <= jd < d.len() && d[jd] == m[j3];
        let i = choose|i: int|
            0 <= i < s.len() && s[i] == d[jd] && (forall|t: int| 0 <= t < i ==> s[t].id != d[jd].id);
        assert(s[i] == out[j3].item && (forall|t: int| 0 <= t < i ==> s[t].id != id));
    }
}

/// An item authored by the viewer never appears among the review
/// candidates.
pub proof fn lemma_self_review_excluded(
    out: Seq<ReviewCandidate>,
    rr: Seq<GitHubSearchItem>,
    rb: Seq<GitHubSearchItem>,
    viewer_l: Seq<char>,
)
    requires
        out.map_values(|c: ReviewCandidate| c.item) == drop_viewer(dedup_by_id(rr + rb), viewer_l),
    ensures
        forall|j: int|
            0 <= j < out.len() ==> lower_of(#[trigger] out[j].item.user.login@) != viewer_l,
{
    let d = dedup_by_id(rr + rb);
    lemma_drop_viewer_shape(d, viewer_l);
    assert forall|j: int| 0 <= j < out.len() implies lower_of(
        #[trigger] out[j].item.user.login@,
    ) != viewer_l by {
        assert(out.map_values(|c: ReviewCandidate| c.item)[j] == out[j].item);
        assert(drop_viewer(d, viewer_l)[j] == out[j].item);
    }
}

/// The index of the first failed result, if any failed.
pub open spec fn first_err_index<T, E>(rs: Seq<Result<T, E>>) -> int
    decreases rs.len(),
{
    if rs.len() == 0 {
        0
    } else if rs[0] is Err {
        0
    } else {
        1 + first_err_index(rs.drop_first())
    }
}

/// Collects enrichment results all-or-nothing: every success in order, or
/// the first failure alone.
#[verifier::loop_isolation(false)]
pub fn collect_enriched<T, E>(results: Vec<Result<T, E>>) -> (r: Result<Vec<T>, E>)
    ensures
        match r {
            Ok(v) => v@.len() == results@.len() && forall|i: int|
                0 <= i < results@.len() ==> results@[i] == Ok::<T, E>(v@[i]),
            Err(e) => exists|i: int|
                0 <= i < results@.len() && results@[i] == Err::<T, E>(e) && forall|j: int|
                    0 <= j < i ==> results@[j] is Ok,
        },
{
    let ghost all = results@;
    let mut src = results;
    let mut acc: Vec<T> = Vec::new();
    let ghost k: int = 0;
    while src.len() > 0
        invariant
            0 <= k <= all.len(),
            src@ =~= all.skip(k),
            acc@.len() == k,
            forall|i: int| 0 <= i < k ==> all[i] == Ok::<T, E>(acc@[i]),
        decreases src@.len(),
    {
        let x = src.remove(0);
        proof {
            assert(x == all[k]);
            assert(src@ =~= all.skip(k + 1));
        }
        match x {
            Ok(v) => {
                acc.push(v);
            },
            Err(e) => {
                proof {
                    assert(all[k] == Err::<T, E>(e));
                    assert forall|j: int| 0 <= j < k implies all[j] is Ok by {
                        assert(all[j] == Ok::<T, E>(acc@[j]));
                    }
                }
                return Err(e);
            },
        }
        proof {
            k = k + 1;
        }
    }
    Ok(acc)
}

/// The two-key comparator: items needing the viewer's action first, then
/// by update time, newest first.
pub open spec fn pr_le(a: DashboardPR, b: DashboardPR) -> bool {
    if a.turn_status != b.turn_status {
        a.turn_status == TurnStatus::MyTurn
    } else {
        lex_le(b.updated_at@, a.updated_at@)
    }
}

/// The comparator is total.
pub proof fn lemma_pr_le_total(a: DashboardPR, b: DashboardPR)
    ensures
        pr_le(a, b) || pr_le(b, a),
{
    if a.turn_status == b.turn_status {
        lemma_lex_le_total(a.updated_at@, b.updated_at@);
    } else {
        if a.turn_status == TurnStatus::MyTurn {
        } else {
            assert(b.turn_status == TurnStatus::MyTurn);
        }
    }
}

/// The comparator is transitive.
pub proof fn lemma_pr_le_trans(a: DashboardPR, b: DashboardPR, c: DashboardPR)
    requires
        pr_le(a, b),
        pr_le(b, c),
    ensures
        pr_le(a, c),
{
    if a.turn_status == b.turn_status && b.turn_status == c.turn_status {
        lemma_lex_le_trans(c.updated_at@, b.updated_at@, a.updated_at@);
    }
}

/// Decides the comparator.
fn pr_le_exec(a: &DashboardPR, b: &DashboardPR) -> (r: bool)
    ensures
        r == pr_le(*a, *b),
{
    let sa = a.turn_status;
    let sb = b.turn_status;
    if sa != sb {
        matches!(sa, TurnStatus::MyTurn)
    } else {
        str_lex_le(b.updated_at.as_str(), a.updated_at.as_str())
    }
}

/// Sorts the items in place with the two-key comparator: items needing
/// the viewer's action first, then newest update first.
#[verifier::loop_isolation(false)]
pub fn sort_prs(prs: &mut Vec<DashboardPR>)
    ensures
        final(prs)@.to_multiset() == old(prs)@.to_multiset(),
        final(prs)@.len() == old(prs)@.len(),
        forall|i: int, j: int|
            0 <= i < j < final(prs)@.len() ==> pr_le(final(prs)@[i], final(prs)@[j]),
{
    broadcast use vstd::seq_lib::group_to_multiset_ensures;
    broadcast use vstd::multiset::group_multiset_axioms;

    let mut out: Vec<DashboardPR> = Vec::new();
    let ghost orig = prs@;
    while prs.len() > 0
        invariant
            out@.to_multiset().add(prs@.to_multiset()) == orig.to_multiset(),
            out@.len() + prs@.len() == orig.len(),
            forall|i: int, j: int| 0 <= i < j < out@.len() ==> pr_le(out@[i], out@[j]),
            forall|i: int, j: int|
                0 <= i < out@.len() && 0 <= j < prs@.len() ==> pr_le(out@[i], prs@[j]),
        decreases prs@.len(),
    {
        // select the first minimal element
        proof {
            lemma_pr_le_total(prs@[0], prs@[0]);
        }
        let mut min: usize = 0;
        let mut t: usize = 1;
        while t < prs.len()
            invariant
                prs@.len() > 0,
                min < t,
                t <= prs@.len(),
                forall|j: int| 0 <= j < t ==> pr_le(prs@[min as int], prs@[j]),
            decreases prs@.len() - t,
        {
            if !pr_le_exec(&prs[min], &prs[t]) {
                proof {
                    lemma_pr_le_total(prs@[min as int], prs@[t as int]);
                    assert forall|j: int| 0 <= j < t + 1 implies pr_le(
                        prs@[t as int],
                        prs@[j],
                    ) by {
                        if j < t {
                            lemma_pr_le_trans(prs@[t as int], prs@[min as int], prs@[j]);
                        } else {
                            lemma_pr_le_total(prs@[t as int], prs@[t as int]);
                        }
                    }
                }
                min = t;
            }
            t += 1;
        }
        proof {
            lemma_pr_le_total(prs@[min as int], prs@[min as int]);
        }
        let ghost before = prs@;
        let ghost outb = out@;
        let x = prs.remove(min);
        proof {
            assert(x == before[min as int]);
        }
        out.push(x);
        proof {
            assert(before.remove(min as int).to_multiset() =~= before.to_multiset().remove(
                before[min as int],
            ));
            assert(before.to_multiset().count(before[min as int]) > 0) by {
                assert(before.contains(before[min as int]));
            }
            assert(out@.to_multiset() =~= outb.to_multiset().insert(before[min as int]));
            assert(out@.to_multiset().add(prs@.to_multiset()) =~= orig.to_multiset());
            assert forall|i: int, j: int| 0 <= i < j < out@.len() implies pr_le(
                out@[i],
                out@[j],
            ) by {
                if j == out@.len() - 1 {
                    assert(out@[j] == before[min as int]);
                    assert(pr_le(outb[i], before[min as int]));
                }
            }
            assert forall|i: int, j: int|
                0 <= i < out@.len() && 0 <= j < prs@.len() implies pr_le(out@[i], prs@[j]) by {
                assert(prs@ == before.remove(min as int));
                let jb: int = if j < min { j } else { j + 1 };
                assert(before[jb] == prs@[j]);
                if i < out@.len() - 1 {
                    assert(pr_le(outb[i], before[jb]));
                } else {
                    assert(out@[i] == before[min as int]);
                    assert(pr_le(before[min as int], before[jb]));
                }
            }
        }
    }
    proof {
        assert(prs@.to_multiset() =~= Multiset::<DashboardPR>::empty());
        assert(out@.to_multiset().add(prs@.to_multiset()) =~= out@.to_multiset());
    }
    *prs = out;
}

/// Assembles the snapshot envelope.
pub fn assemble_dashboard(
    my_prs: Vec<DashboardPR>,
    review_requests: Vec<DashboardPR>,
    github_username: String,
    fetched_at: String,
) -> (r: DashboardResponse)
    ensures
        r.my_prs == my_prs,
        r.review_requests == review_requests,
        r.github_username == github_username,
        r.fetched_at == fetched_at,
{
    DashboardResponse { my_prs, review_requests, github_username, fetched_at }
}

} // verus!
