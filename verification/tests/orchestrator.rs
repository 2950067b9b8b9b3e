use mouflon::acquire::{decide_acquisition, AcquisitionStep};
use mouflon::model::{AccessTokenResponse, AuthorizationData};

fn record(iat_millis: i64, expires_in: u64, refresh_expires_in: u64) -> AuthorizationData {
    AuthorizationData {
        iat: iat_millis,
        at_response: AccessTokenResponse {
            access_token: String::from("cached-access"),
            expires_in,
            refresh_expires_in,
            refresh_token: String::from("cached-refresh"),
        },
    }
}

#[test]
fn fresh_cache_is_returned_without_any_network_step() {
    let step = decide_acquisition(Some(record(0, 60, 300)), 30_000);
    assert_eq!(
        step,
        AcquisitionStep::UseCached { access_token: String::from("cached-access") }
    );
}

#[test]
fn lapsed_access_token_with_live_refresh_token_refreshes() {
    let step = decide_acquisition(Some(record(0, 60, 300)), 60_000);
    assert_eq!(
        step,
        AcquisitionStep::Refresh { refresh_token: String::from("cached-refresh") }
    );
}

#[test]
fn no_cache_runs_the_full_authorization_flow() {
    let step = decide_acquisition(None, 0);
    assert_eq!(step, AcquisitionStep::Authorize);
}

#[test]
fn fully_lapsed_cache_runs_the_full_authorization_flow() {
    let step = decide_acquisition(Some(record(0, 60, 300)), 300_000);
    assert_eq!(step, AcquisitionStep::Authorize);
}

#[test]
fn cached_token_wins_over_refresh_when_both_are_live() {
    let step = decide_acquisition(Some(record(0, 60, 300)), 10_000);
    assert_eq!(
        step,
        AcquisitionStep::UseCached { access_token: String::from("cached-access") }
    );
}
