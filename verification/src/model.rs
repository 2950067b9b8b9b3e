use vstd::prelude::*;

verus! {

/// The token-endpoint grant result: the subset of the OAuth2 token response
/// that the broker consumes. Durations are whole seconds, as on the wire.
#[derive(Debug, Clone, PartialEq, Eq)]
pub struct AccessTokenResponse {
    pub access_token: String,
    /// Access-token lifetime in seconds.
    pub expires_in: u64,
    /// Refresh-token lifetime in seconds.
    pub refresh_expires_in: u64,
    pub refresh_token: String,
}

/// The persisted cache record: the grant result together with the client-side
/// capture time, so expiry arithmetic is independent of provider clock skew.
#[derive(Debug, Clone, PartialEq, Eq)]
pub struct AuthorizationData {
    /// Client-side capture time, in milliseconds since the Unix epoch.
    pub iat: i64,
    pub at_response: AccessTokenResponse,
}

/// Endpoints fetched from an issuer's OIDC discovery document; ephemeral,
/// fetched once per client construction.
#[derive(Debug, Clone, PartialEq, Eq)]
pub struct OpenIdConfiguration {
    pub token_endpoint: String,
    pub authorization_endpoint: String,
}

/// Where a provider's endpoints come from. A closed sum so that explicit
/// endpoint pairs can be added later without touching call sites.
#[derive(Debug, Clone, PartialEq, Eq)]
pub enum Endpoint {
    Issuer(String),
}

/// One configured identity provider; `name` is the cache key.
#[derive(Debug, Clone, PartialEq, Eq)]
pub struct ClientConfig {
    pub name: String,
    pub endpoint: Endpoint,
    pub client_id: String,
    pub client_secret: Option<String>,
}

/// The `code`/`state` query parameters captured from the authorization
/// redirect; consumed immediately by the token exchange.
#[derive(Debug, Clone, PartialEq, Eq)]
pub struct ReturnParams {
    pub code: String,
    pub state: String,
}

/// Fatal faults of the authorization flow itself. Both abort the attempt:
/// neither may ever proceed to a token exchange.
#[derive(Debug, Clone, Copy, PartialEq, Eq, Structural)]
pub enum FlowError {
    /// The redirect's `state` differs from the one this attempt generated.
    Csrf,
    /// The redirect arrived without a `code` or a `state` parameter.
    MissingRedirectParam,
}

} // verus!
