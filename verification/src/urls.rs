//! The query strings and request URLs the dashboard issues, and the
//! bearer header value: all fixed templates over the viewer's name and
//! the item's coordinates.

use vstd::prelude::*;

use crate::strutil::dec_digits;
use crate::strutil::u64_to_string;

verus! {

/// Spec-level name for what `urlencoding::encode` returns; the encoding
/// is a pure function of the characters.
pub uninterp spec fn urlenc_of(s: Seq<char>) -> Seq<char>;

/// Relies on urlencoding::encode: percent-encodes a query string, a pure
/// function of its characters.
#[verifier::external_body]
fn urlencode(s: &str) -> (r: String)
    ensures
        r@ == urlenc_of(s@),
{
    urlencoding::encode(s).into_owned()
}

/// The search query for items the viewer authored.
pub open spec fn author_query(user: Seq<char>) -> Seq<char> {
    "author:"@ + user + " type:pr state:open sort:updated"@
}

/// The search query for items where the viewer's review is requested.
pub open spec fn review_requested_query(user: Seq<char>) -> Seq<char> {
    "review-requested:"@ + user + " type:pr state:open sort:updated"@
}

/// The search query for items the viewer has already reviewed.
pub open spec fn reviewed_by_query(user: Seq<char>) -> Seq<char> {
    "reviewed-by:"@ + user + " type:pr state:open sort:updated"@
}

/// The search endpoint with an encoded query, top 25 by update recency.
pub open spec fn search_url_spec(q: Seq<char>) -> Seq<char> {
    "https://api.github.com/search/issues?q="@ + urlenc_of(q) + "&per_page=25"@
}

/// Builds the search URL for an already-built query.
fn search_url(query: &str) -> (u: String)
    ensures
        u@ == search_url_spec(query@),
{
    let mut u = String::from_str("https://api.github.com/search/issues?q=");
    let q = urlencode(query);
    u.append(q.as_str());
    u.append("&per_page=25");
    u
}

/// The URL of the authored-items search.
pub fn my_prs_search_url(username: &str) -> (u: String)
    ensures
        u@ == search_url_spec(author_query(username@)),
{
    let mut q = String::from_str("author:");
    q.append(username);
    q.append(" type:pr state:open sort:updated");
    search_url(q.as_str())
}

/// The URL of the review-requested search.
pub fn review_requests_search_url(username: &str) -> (u: String)
    ensures
        u@ == search_url_spec(review_requested_query(username@)),
{
    let mut q = String::from_str("review-requested:");
    q.append(username);
    q.append(" type:pr state:open sort:updated");
    search_url(q.as_str())
}

/// The URL of the reviewed-by search.
pub fn reviewed_by_search_url(username: &str) -> (u: String)
    ensures
        u@ == search_url_spec(reviewed_by_query(username@)),
{
    let mut q = String::from_str("reviewed-by:");
    q.append(username);
    q.append(" type:pr state:open sort:updated");
    search_url(q.as_str())
}

/// The URL that resolves the authenticated identity.
pub fn user_url() -> (u: String)
    ensures
        u@ == "https://api.github.com/user"@,
{
    String::from_str("https://api.github.com/user")
}

/// The URL of one pull request's reviews.
pub fn reviews_url(owner: &str, repo: &str, pr_number: u64) -> (u: String)
    ensures
        u@ == "https://api.github.com/repos/"@ + owner@ + "/"@ + repo@ + "/pulls/"@ + dec_digits(
            pr_number as nat,
        ) + "/reviews"@,
{
    let mut u = String::from_str("https://api.github.com/repos/");
    u.append(owner);
    u.append("/");
    u.append(repo);
    u.append("/pulls/");
    let n = u64_to_string(pr_number);
    u.append(n.as_str());
    u.append("/reviews");
    u
}

/// The URL of one pull request's outstanding review requests.
pub fn requested_reviewers_url(owner: &str, repo: &str, pr_number: u64) -> (u: String)
    ensures
        u@ == "https://api.github.com/repos/"@ + owner@ + "/"@ + repo@ + "/pulls/"@ + dec_digits(
            pr_number as nat,
        ) + "/requested_reviewers"@,
{
    let mut u = String::from_str("https://api.github.com/repos/");
    u.append(owner);
    u.append("/");
    u.append(repo);
    u.append("/pulls/");
    let n = u64_to_string(pr_number);
    u.append(n.as_str());
    u.append("/requested_reviewers");
    u
}

/// The authorization header value for a token.
pub fn bearer_value(token: &str) -> (v: String)
    ensures
        v@ == "Bearer "@ + token@,
{
    let mut v = String::from_str("Bearer ");
    v.append(token);
    v
}

} // verus!
