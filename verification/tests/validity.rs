use mouflon::model::{AccessTokenResponse, AuthorizationData};
use mouflon::valid::{is_at_valid, is_rt_valid};

fn record(iat_millis: i64, expires_in: u64, refresh_expires_in: u64) -> AuthorizationData {
    AuthorizationData {
        iat: iat_millis,
        at_response: AccessTokenResponse {
            access_token: String::from("at"),
            expires_in,
            refresh_expires_in,
            refresh_token: String::from("rt"),
        },
    }
}

#[test]
fn access_token_valid_until_grace_window() {
    // iat = T, expires_in = 60 s, grace = 10 s
    let auth = record(0, 60, 300);
    assert!(is_at_valid(&auth, 49_000));
    assert!(!is_at_valid(&auth, 51_000));
}

#[test]
fn access_token_invalid_exactly_at_grace_boundary() {
    let auth = record(0, 60, 300);
    assert!(!is_at_valid(&auth, 50_000));
    assert!(is_at_valid(&auth, 49_999));
}

#[test]
fn refresh_token_uses_its_own_lifetime() {
    let auth = record(0, 60, 300);
    assert!(is_rt_valid(&auth, 289_999));
    assert!(!is_rt_valid(&auth, 290_000));
}

#[test]
fn validity_anchors_on_iat() {
    let auth = record(1_000_000, 60, 300);
    assert!(is_at_valid(&auth, 1_049_000));
    assert!(!is_at_valid(&auth, 1_051_000));
}

#[test]
fn zero_lifetime_is_never_valid() {
    let auth = record(0, 0, 0);
    assert!(!is_at_valid(&auth, 0));
    assert!(!is_rt_valid(&auth, 0));
}
