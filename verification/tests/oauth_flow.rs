use mouflon::model::{ClientConfig, Endpoint, FlowError, OpenIdConfiguration, ReturnParams};
use mouflon::oauth2::{well_known_url, Oauth2Client};
use mouflon::pkce::verifier_to_challenge;
use mouflon::redirect::{return_params_from_query, RedirectSlot};

fn client(secret: Option<&str>) -> Oauth2Client {
    let config = ClientConfig {
        name: String::from("default"),
        endpoint: Endpoint::Issuer(String::from("https://idp.example/realms/dev")),
        client_id: String::from("my-client"),
        client_secret: secret.map(String::from),
    };
    let oidc = OpenIdConfiguration {
        token_endpoint: String::from("https://idp.example/token"),
        authorization_endpoint: String::from("https://idp.example/auth"),
    };
    Oauth2Client::from_parts(&config, oidc)
}

#[test]
fn discovery_url_is_the_well_known_document() {
    assert_eq!(
        well_known_url("https://idp.example/realms/dev"),
        "https://idp.example/realms/dev/.well-known/openid-configuration"
    );
}

#[test]
fn client_takes_endpoints_from_discovery() {
    let c = client(Some("s3cret"));
    assert_eq!(c.token_endpoint, "https://idp.example/token");
    assert_eq!(c.authorization_endpoint, "https://idp.example/auth");
    assert_eq!(c.client_id, "my-client");
    assert_eq!(c.client_secret.as_deref(), Some("s3cret"));
}

#[test]
fn refresh_body_carries_the_grant_and_the_secret() {
    let c = client(Some("s3cret"));
    assert_eq!(
        c.refresh_request_body("old-refresh"),
        "grant_type=refresh_token&client_id=my-client&client_secret=s3cret&refresh_token=old-refresh"
    );
}

#[test]
fn public_client_sends_an_empty_secret() {
    let c = client(None);
    assert_eq!(
        c.refresh_request_body("old-refresh"),
        "grant_type=refresh_token&client_id=my-client&client_secret=&refresh_token=old-refresh"
    );
}

#[test]
fn authorization_attempt_builds_pkce_material_and_the_consent_url() {
    let c = client(Some("s3cret"));
    let attempt = c.begin_authorization();
    assert_eq!(attempt.verifier.len(), 64);
    assert_eq!(attempt.state.len(), 16);
    assert_eq!(attempt.challenge, verifier_to_challenge(&attempt.verifier));
    let expected = format!(
        "https://idp.example/auth?client_id=my-client&redirect_uri=http://localhost:4800/&response_type=code&code_challenge={}&code_challenge_method=S256&state={}",
        attempt.challenge, attempt.state
    );
    assert_eq!(attempt.url, expected);
}

#[test]
fn matching_state_yields_the_exchange_body() {
    let c = client(Some("s3cret"));
    let attempt = c.begin_authorization();
    let returned = ReturnParams {
        code: String::from("the-code"),
        state: attempt.state.clone(),
    };
    let body = c
        .finish_authorization(&attempt, &returned)
        .expect("matching state must allow the exchange");
    let expected = format!(
        "grant_type=authorization_code&client_id=my-client&client_secret=s3cret&redirect_uri=http://localhost:4800/&code=the-code&code_verifier={}",
        attempt.verifier
    );
    assert_eq!(body, expected);
}

#[test]
fn mismatched_state_aborts_before_any_exchange() {
    let c = client(Some("s3cret"));
    let attempt = c.begin_authorization();
    let returned = ReturnParams {
        code: String::from("the-code"),
        state: String::from("forged-state"),
    };
    assert_eq!(
        c.finish_authorization(&attempt, &returned),
        Err(FlowError::Csrf)
    );
}

#[test]
fn redirect_query_yields_code_and_state() {
    let params = return_params_from_query("code=abc&state=xyz").expect("both parameters present");
    assert_eq!(params.code, "abc");
    assert_eq!(params.state, "xyz");
}

#[test]
fn redirect_query_is_percent_decoded() {
    let params =
        return_params_from_query("code=a%2Fb%20c&state=x%3Dy").expect("both parameters present");
    assert_eq!(params.code, "a/b c");
    assert_eq!(params.state, "x=y");
}

#[test]
fn redirect_query_last_duplicate_wins() {
    let params =
        return_params_from_query("code=first&code=second&state=s").expect("parameters present");
    assert_eq!(params.code, "second");
}

#[test]
fn missing_code_or_state_is_a_protocol_violation() {
    assert_eq!(
        return_params_from_query("state=xyz"),
        Err(FlowError::MissingRedirectParam)
    );
    assert_eq!(
        return_params_from_query("code=abc"),
        Err(FlowError::MissingRedirectParam)
    );
    assert_eq!(
        return_params_from_query(""),
        Err(FlowError::MissingRedirectParam)
    );
}

#[test]
fn first_delivery_wins_and_later_ones_are_ignored() {
    let mut slot = RedirectSlot::new();
    let first = ReturnParams { code: String::from("abc"), state: String::from("xyz") };
    let second = ReturnParams { code: String::from("later"), state: String::from("nope") };
    assert!(slot.offer(first.clone()));
    assert!(!slot.offer(second));
    let got = slot.take().expect("first delivery is kept");
    assert_eq!(got, first);
    assert!(slot.take().is_none());
}
