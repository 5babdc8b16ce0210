use gh_dash::errors::{classify_http_failure, format_dashboard_auth_error,
    format_enrichment_error, format_search_error, format_validate_error, render_gateway_error,
    FetchError, GatewayError};

#[test]
fn status_429_is_rate_limited_with_reset_hint() {
    let e = classify_http_failure(429, None, Some("3600"), "Too Many Requests", "");
    match &e {
        GatewayError::RateLimited { reset_hint } => {
            assert_eq!(reset_hint.as_deref(), Some("01:00:00 UTC"));
        }
        _ => panic!("expected a rate-limit classification"),
    }
    assert_eq!(
        render_gateway_error(&e),
        "GitHub API rate limit exceeded. Resets at 01:00:00 UTC."
    );
}

#[test]
fn status_403_with_zero_remaining_is_rate_limited() {
    let e = classify_http_failure(403, Some("0"), None, "Forbidden", "");
    match &e {
        GatewayError::RateLimited { reset_hint } => assert!(reset_hint.is_none()),
        _ => panic!("expected a rate-limit classification"),
    }
    assert_eq!(render_gateway_error(&e), "GitHub API rate limit exceeded.");
}

#[test]
fn status_403_with_remaining_quota_is_plain_http_error() {
    let e = classify_http_failure(403, Some("5"), None, "Forbidden", "nope");
    match &e {
        GatewayError::HttpError { status, reason, body_snippet } => {
            assert_eq!(*status, 403);
            assert_eq!(reason, "Forbidden");
            assert_eq!(body_snippet, "nope");
        }
        _ => panic!("expected an HTTP error classification"),
    }
    assert_eq!(render_gateway_error(&e), "GitHub API 403: Forbidden - nope");
}

#[test]
fn unparsable_reset_header_yields_no_hint() {
    let e = classify_http_failure(429, None, Some("soon"), "Too Many Requests", "");
    match &e {
        GatewayError::RateLimited { reset_hint } => assert!(reset_hint.is_none()),
        _ => panic!("expected a rate-limit classification"),
    }
}

#[test]
fn body_snippet_truncated_to_200_characters() {
    let body = "x".repeat(300);
    let e = classify_http_failure(500, None, None, "Internal Server Error", &body);
    match &e {
        GatewayError::HttpError { body_snippet, .. } => {
            assert_eq!(body_snippet.len(), 200);
        }
        _ => panic!("expected an HTTP error classification"),
    }
}

#[test]
fn search_errors_take_the_search_prefix() {
    let e = GatewayError::NetworkError {
        detail: "boom".to_string(),
    };
    assert_eq!(
        format_search_error(&e),
        "GitHub search failed: Network error: boom"
    );
}

#[test]
fn rate_limit_bypasses_the_search_prefix() {
    let e = GatewayError::RateLimited { reset_hint: None };
    assert_eq!(format_search_error(&e), "GitHub API rate limit exceeded.");
}

#[test]
fn enrichment_errors_take_the_enrichment_prefix() {
    let decode = FetchError::Gateway(GatewayError::DecodeError {
        detail: "bad json".to_string(),
    });
    assert_eq!(
        format_enrichment_error(&decode),
        "GitHub PR enrichment failed: Failed to parse GitHub response: bad json"
    );
    let parse = FetchError::Parse {
        reference: "noslash".to_string(),
    };
    assert_eq!(
        format_enrichment_error(&parse),
        "GitHub PR enrichment failed: Could not parse owner/repo from: noslash"
    );
}

#[test]
fn rate_limit_bypasses_the_enrichment_prefix() {
    let e = FetchError::Gateway(GatewayError::RateLimited {
        reset_hint: Some("01:00:00 UTC".to_string()),
    });
    assert_eq!(
        format_enrichment_error(&e),
        "GitHub API rate limit exceeded. Resets at 01:00:00 UTC."
    );
}

#[test]
fn validation_wraps_non_rate_limit_failures() {
    let e = GatewayError::HttpError {
        status: 401,
        reason: "Unauthorized".to_string(),
        body_snippet: String::new(),
    };
    assert_eq!(
        format_validate_error(&e),
        "Invalid Personal Access Token or GitHub API error: GitHub API 401: Unauthorized - "
    );
    assert_eq!(
        format_dashboard_auth_error(&e),
        "Invalid Personal Access Token or GitHub API error. Check your token. (GitHub API 401: Unauthorized - )"
    );
}

#[test]
fn rate_limit_bypasses_the_auth_wrappers() {
    let e = GatewayError::RateLimited { reset_hint: None };
    assert_eq!(format_validate_error(&e), "GitHub API rate limit exceeded.");
    assert_eq!(
        format_dashboard_auth_error(&e),
        "GitHub API rate limit exceeded."
    );
}
