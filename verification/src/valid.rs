use crate::model::AuthorizationData;
use crate::MILLIS_PER_SECOND;
use vstd::prelude::*;

verus! {

/// Safety margin subtracted from a token's nominal lifetime: a token that
/// would expire within this window is already treated as expired, so it
/// cannot lapse right before it is used downstream.
pub const GRACE_PERIOD_MILLIS: u64 = 10_000;

/// The instant (milliseconds since the Unix epoch) at which a token captured
/// at `iat` with a lifetime of `lifetime_seconds` stops being usable: the
/// nominal expiry minus the grace period.
pub open spec fn usable_until_millis(iat: i64, lifetime_seconds: u64) -> int {
    iat + lifetime_seconds * MILLIS_PER_SECOND - GRACE_PERIOD_MILLIS
}

/// The access token of `data` is still usable at `now_millis`.
pub open spec fn access_token_valid(data: AuthorizationData, now_millis: i64) -> bool {
    now_millis < usable_until_millis(data.iat, data.at_response.expires_in)
}

/// The refresh token of `data` is still usable at `now_millis`.
pub open spec fn refresh_token_valid(data: AuthorizationData, now_millis: i64) -> bool {
    now_millis < usable_until_millis(data.iat, data.at_response.refresh_expires_in)
}

/// Is the cached access token still usable at `now_millis`?
pub fn is_at_valid(auth: &AuthorizationData, now_millis: i64) -> (valid: bool)
    ensures
        valid == access_token_valid(*auth, now_millis),
{
    let lifetime: i128 = auth.at_response.expires_in as i128;
    proof {
        lemma_lifetime_millis_bounds(lifetime);
    }
    let usable_until: i128 = auth.iat as i128 + lifetime * MILLIS_PER_SECOND as i128
        - GRACE_PERIOD_MILLIS as i128;
    (now_millis as i128) < usable_until
}

/// Is the cached refresh token still usable at `now_millis`?
pub fn is_rt_valid(auth: &AuthorizationData, now_millis: i64) -> (valid: bool)
    ensures
        valid == refresh_token_valid(*auth, now_millis),
{
    let lifetime: i128 = auth.at_response.refresh_expires_in as i128;
    proof {
        lemma_lifetime_millis_bounds(lifetime);
    }
    let usable_until: i128 = auth.iat as i128 + lifetime * MILLIS_PER_SECOND as i128
        - GRACE_PERIOD_MILLIS as i128;
    (now_millis as i128) < usable_until
}

/// A token lifetime in seconds scaled to milliseconds stays far inside the
/// range of `i128`.
proof fn lemma_lifetime_millis_bounds(lifetime: i128)
    requires
        0 <= lifetime <= u64::MAX,
    ensures
        0 <= lifetime * MILLIS_PER_SECOND <= u64::MAX * MILLIS_PER_SECOND,
{
    assert(0 <= lifetime * MILLIS_PER_SECOND <= u64::MAX * MILLIS_PER_SECOND)
        by (nonlinear_arith)
        requires
            0 <= lifetime <= u64::MAX,
            MILLIS_PER_SECOND == 1000,
    ;
}

} // verus!
