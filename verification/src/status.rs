//! The matchmaker status check: find a lobby in a region as a test game,
//! with a short-lived bypass token.

use vstd::prelude::*;

verus! {

/// Why the status check cannot run.
#[derive(Debug, PartialEq, Eq, Structural)]
pub enum StatusError {
    /// The CDN domain is not configured.
    MissingDomainCdn,
    /// The token service returned no token.
    MissingToken,
}

/// An entitlement that a token grants.
#[derive(Clone, Copy, Debug, PartialEq, Eq, Structural)]
pub enum Entitlement {
    /// Bypasses the matchmaker's checks.
    Bypass,
}

/// The new token (not the refresh of an existing one) to create for the
/// check.
pub struct BypassTokenRequest {
    /// Lifetime in milliseconds.
    pub ttl_ms: i64,
    /// Whether a refresh token is asked for as well.
    pub refresh_token: bool,
    pub issuer: String,
    /// Whether the request carries the client information of the route's
    /// caller.
    pub with_client_info: bool,
    /// The entitlements of the new token.
    pub entitlements: Vec<Entitlement>,
    pub label: String,
}

/// The lobby search of the check.
pub struct StatusCheck {
    pub token: BypassTokenRequest,
    /// The origin the search claims to come from.
    pub origin: String,
    pub game_mode: String,
    pub region: String,
}

/// The query of the status route: the region to check.
pub struct StatusQuery {
    pub region: String,
}

/// Fifteen minutes in milliseconds.
pub open spec fn token_ttl_ms() -> i64 {
    900000
}

/// The origin of the test game under the CDN domain.
pub open spec fn test_game_origin(domain_cdn: Seq<char>) -> Seq<char> {
    "https://test-game."@ + domain_cdn + "/"@
}

/// The check for `region`; the CDN domain must be configured.
pub fn status(domain_cdn: Option<&str>, query: &StatusQuery) -> (res: Result<StatusCheck, StatusError>)
    ensures
        res is Err <==> domain_cdn is None,
        res matches Err(e) ==> e == StatusError::MissingDomainCdn,
        res matches Ok(c) ==> {
            &&& c.token.ttl_ms == token_ttl_ms()
            &&& !c.token.refresh_token
            &&& c.token.with_client_info
            &&& c.token.entitlements@ == seq![Entitlement::Bypass]
            &&& c.token.issuer@ == "api-status"@
            &&& c.token.label@ == "byp"@
            &&& c.origin@ == test_game_origin(domain_cdn->0@)
            &&& c.game_mode@ == "default"@
            &&& c.region@ == query.region@
        },
{
    let domain = match domain_cdn {
        Some(d) => d,
        None => return Err(StatusError::MissingDomainCdn),
    };
    let mut origin = String::from_str("https://test-game.");
    origin.append(domain);
    origin.append("/");
    let mut entitlements: Vec<Entitlement> = Vec::new();
    entitlements.push(Entitlement::Bypass);
    assert(entitlements@ =~= seq![Entitlement::Bypass]);
    Ok(StatusCheck {
        token: BypassTokenRequest {
            ttl_ms: 15 * 60 * 1000,
            refresh_token: false,
            issuer: String::from_str("api-status"),
            with_client_info: true,
            entitlements,
            label: String::from_str("byp"),
        },
        origin,
        game_mode: String::from_str("default"),
        region: query.region.clone(),
    })
}

/// The token that the token service returned, which the check needs.
pub fn bypass_token(token: Option<String>) -> (res: Result<String, StatusError>)
    ensures
        res is Err <==> token is None,
        res matches Err(e) ==> e == StatusError::MissingToken,
        res matches Ok(t) ==> t == token->0,
{
    match token {
        Some(t) => Ok(t),
        None => Err(StatusError::MissingToken),
    }
}

} // verus!
