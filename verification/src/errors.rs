//! The error taxonomy: gateway failures classified as typed variants
//! (rate limit, HTTP, network, decode), enrichment-stage failures, and
//! the user-facing rendering of each at every boundary. Rate-limit errors
//! surface verbatim at every boundary; all other failures take that
//! boundary's prefix.

use vstd::prelude::*;

use crate::classify::opt_view;
use crate::strutil::{dec_digits, parse_dec, parse_u64, str_eq, u64_to_string};
use crate::timefmt::{chrono_timestamp_to_local_time, local_time_spec};

verus! {

/// A failure of one authenticated fetch against the hosting API.
#[derive(Debug, Clone)]
pub enum GatewayError {
    /// The API rate limit was hit; the hint, when derivable from the
    /// response headers, is an already rendered reset time.
    RateLimited { reset_hint: Option<String> },
    /// A non-success HTTP response outside the rate-limit rule.
    HttpError { status: u16, reason: String, body_snippet: String },
    /// The request never yielded a response.
    NetworkError { detail: String },
    /// The response body could not be decoded.
    DecodeError { detail: String },
}

/// A failure while enriching one item.
#[derive(Debug, Clone)]
pub enum FetchError {
    /// A fetch of the item's reviews, outstanding review requests or detail failed.
    Gateway(GatewayError),
    /// The item's repository reference had no owner/name split.
    Parse { reference: String },
}

/// The view of an optional owned string.
pub open spec fn opt_str_view(o: Option<String>) -> Option<Seq<char>> {
    match o {
        Some(s) => Some(s@),
        None => None,
    }
}

/// The rate-limit detection rule: HTTP 429, or HTTP 403 together with a
/// remaining-requests header that reads exactly `0`.
pub open spec fn is_rate_limited_spec(status: u16, remaining: Option<Seq<char>>) -> bool {
    status == 429 || (status == 403 && remaining == Some("0"@))
}

/// The reset hint derived from the reset header: the rendered time of
/// day, when the header parses as an epoch-second count.
pub open spec fn reset_hint_spec(reset: Option<Seq<char>>) -> Option<Seq<char>> {
    match reset {
        Some(h) => match parse_dec(h) {
            Some(v) => if v <= u64::MAX {
                Some(local_time_spec(v))
            } else {
                None
            },
            None => None,
        },
        None => None,
    }
}

/// The body snippet kept with an HTTP error: at most 200 characters.
pub open spec fn snippet_spec(s: Seq<char>) -> Seq<char> {
    if s.len() > 200 {
        s.take(200)
    } else {
        s
    }
}

/// Classifies a non-success HTTP response, reproducing the rate-limit
/// detection rule exactly.
pub fn classify_http_failure(
    status: u16,
    ratelimit_remaining: Option<&str>,
    ratelimit_reset: Option<&str>,
    reason: &str,
    body: &str,
) -> (e: GatewayError)
    ensures
        is_rate_limited_spec(status, opt_view(ratelimit_remaining)) ==> (e
            matches GatewayError::RateLimited { reset_hint } && opt_str_view(reset_hint)
            == reset_hint_spec(opt_view(ratelimit_reset))),
        !is_rate_limited_spec(status, opt_view(ratelimit_remaining)) ==> (e
            matches GatewayError::HttpError { status: s2, reason: re, body_snippet: b } && s2
            == status && re@ == reason@ && b@ == snippet_spec(body@)),
{
    let is_rl = status == 429 || (status == 403 && match ratelimit_remaining {
        Some(v) => str_eq(v, "0"),
        None => false,
    });
    if is_rl {
        let hint: Option<String> = match ratelimit_reset {
            Some(h) => match parse_u64(h) {
                Some(v) => Some(chrono_timestamp_to_local_time(v)),
                None => None,
            },
            None => None,
        };
        GatewayError::RateLimited { reset_hint: hint }
    } else {
        let len = body.unicode_len();
        let snippet: &str = if len > 200 {
            body.substring_char(0, 200)
        } else {
            body
        };
        GatewayError::HttpError {
            status,
            reason: reason.to_owned(),
            body_snippet: snippet.to_owned(),
        }
    }
}

/// The rendered form of a gateway failure.
pub open spec fn gateway_error_rendered(e: GatewayError) -> Seq<char> {
    match e {
        GatewayError::RateLimited { reset_hint } => "GitHub API rate limit exceeded."@ + (
        match reset_hint {
            Some(h) => " Resets at "@ + h@ + "."@,
            None => Seq::<char>::empty(),
        }),
        GatewayError::HttpError { status, reason, body_snippet } => "GitHub API "@ + dec_digits(
            status as nat,
        ) + ": "@ + reason@ + " - "@ + body_snippet@,
        GatewayError::NetworkError { detail } => "Network error: "@ + detail@,
        GatewayError::DecodeError { detail } => "Failed to parse GitHub response: "@ + detail@,
    }
}

/// Renders a gateway failure for the user.
pub fn render_gateway_error(e: &GatewayError) -> (s: String)
    ensures
        s@ == gateway_error_rendered(*e),
{
    match e {
        GatewayError::RateLimited { reset_hint } => {
            let mut s = String::from_str("GitHub API rate limit exceeded.");
            match reset_hint {
                Some(h) => {
                    s.append(" Resets at ");
                    s.append(h.as_str());
                    s.append(".");
                },
                None => {},
            }
            s
        },
        GatewayError::HttpError { status, reason, body_snippet } => {
            let mut s = String::from_str("GitHub API ");
            let t = u64_to_string(*status as u64);
            s.append(t.as_str());
            s.append(": ");
            s.append(reason.as_str());
            s.append(" - ");
            s.append(body_snippet.as_str());
            s
        },
        GatewayError::NetworkError { detail } => {
            let mut s = String::from_str("Network error: ");
            s.append(detail.as_str());
            s
        },
        GatewayError::DecodeError { detail } => {
            let mut s = String::from_str("Failed to parse GitHub response: ");
            s.append(detail.as_str());
            s
        },
    }
}

/// The message a failed search surfaces: rate limits verbatim, anything
/// else behind the search prefix.
pub open spec fn search_error_message(e: GatewayError) -> Seq<char> {
    if e is RateLimited {
        gateway_error_rendered(e)
    } else {
        "GitHub search failed: "@ + gateway_error_rendered(e)
    }
}

/// Renders a failed search query's error.
pub fn format_search_error(e: &GatewayError) -> (s: String)
    ensures
        s@ == search_error_message(*e),
{
    match e {
        GatewayError::RateLimited { .. } => render_gateway_error(e),
        _ => {
            let mut s = String::from_str("GitHub search failed: ");
            let t = render_gateway_error(e);
            s.append(t.as_str());
            s
        },
    }
}

/// The rendered form of an enrichment-stage failure.
pub open spec fn fetch_error_rendered(e: FetchError) -> Seq<char> {
    match e {
        FetchError::Gateway(g) => gateway_error_rendered(g),
        FetchError::Parse { reference } => "Could not parse owner/repo from: "@ + reference@,
    }
}

/// The message a failed enrichment surfaces: rate limits verbatim,
/// anything else behind the enrichment prefix.
pub open spec fn enrichment_error_message(e: FetchError) -> Seq<char> {
    match e {
        FetchError::Gateway(g) => if g is RateLimited {
            gateway_error_rendered(g)
        } else {
            "GitHub PR enrichment failed: "@ + fetch_error_rendered(e)
        },
        FetchError::Parse { .. } => "GitHub PR enrichment failed: "@ + fetch_error_rendered(e),
    }
}

/// Renders a failed enrichment's error.
pub fn format_enrichment_error(e: &FetchError) -> (s: String)
    ensures
        s@ == enrichment_error_message(*e),
{
    match e {
        FetchError::Gateway(g) => {
            match g {
                GatewayError::RateLimited { .. } => render_gateway_error(g),
                _ => {
                    let mut s = String::from_str("GitHub PR enrichment failed: ");
                    let t = render_gateway_error(g);
                    s.append(t.as_str());
                    s
                },
            }
        },
        FetchError::Parse { reference } => {
            let mut s = String::from_str("GitHub PR enrichment failed: ");
            s.append("Could not parse owner/repo from: ");
            s.append(reference.as_str());
            s
        },
    }
}

/// The message credential validation surfaces for a failed identity
/// resolution: rate limits verbatim, anything else as an invalid token.
pub open spec fn invalid_token_message(e: GatewayError) -> Seq<char> {
    if e is RateLimited {
        gateway_error_rendered(e)
    } else {
        "Invalid Personal Access Token or GitHub API error: "@ + gateway_error_rendered(e)
    }
}

/// Renders a failed credential validation's error.
pub fn format_validate_error(e: &GatewayError) -> (s: String)
    ensures
        s@ == invalid_token_message(*e),
{
    match e {
        GatewayError::RateLimited { .. } => render_gateway_error(e),
        _ => {
            let mut s = String::from_str("Invalid Personal Access Token or GitHub API error: ");
            let t = render_gateway_error(e);
            s.append(t.as_str());
            s
        },
    }
}

/// The message the dashboard surfaces when identity resolution fails:
/// rate limits verbatim, anything else as an invalid token with the
/// cause in parentheses.
pub open spec fn dashboard_auth_message(e: GatewayError) -> Seq<char> {
    if e is RateLimited {
        gateway_error_rendered(e)
    } else {
        "Invalid Personal Access Token or GitHub API error. Check your token. ("@
            + gateway_error_rendered(e) + ")"@
    }
}

/// Renders a failed identity resolution's error for the dashboard.
pub fn format_dashboard_auth_error(e: &GatewayError) -> (s: String)
    ensures
        s@ == dashboard_auth_message(*e),
{
    match e {
        GatewayError::RateLimited { .. } => render_gateway_error(e),
        _ => {
            let mut s = String::from_str(
                "Invalid Personal Access Token or GitHub API error. Check your token. (",
            );
            let t = render_gateway_error(e);
            s.append(t.as_str());
            s.append(")");
            s
        },
    }
}

} // verus!
