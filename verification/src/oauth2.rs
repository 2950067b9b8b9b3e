use crate::model::{ClientConfig, Endpoint, FlowError, OpenIdConfiguration, ReturnParams};
use crate::pkce::{base64url_encode, sha256_of, url_safe_alphabet, url_safe_rand,
    verifier_to_challenge};
use vstd::prelude::*;
use vstd::string::StringExecFns;

verus! {

/// Length of a generated PKCE verifier, within RFC 7636's 43..=128.
pub const VERIFIER_LENGTH: usize = 64;

/// Length of a generated CSRF state token; unguessable per attempt.
pub const STATE_LENGTH: usize = 16;

/// The fixed loopback redirect target. It must equal, byte for byte, the
/// redirect URI registered with the provider, and the redirect listener must
/// answer on its port.
pub fn redirect_uri() -> (uri: &'static str)
    ensures
        uri@ == "http://localhost:4800/"@,
{
    "http://localhost:4800/"
}

/// The discovery URL of an issuer: its well-known OIDC metadata document.
pub open spec fn well_known_url_spec(issuer: Seq<char>) -> Seq<char> {
    issuer + "/.well-known/openid-configuration"@
}

/// Build the discovery URL for an issuer. The I/O layer fetches it and
/// deserializes the body into an `OpenIdConfiguration`.
pub fn well_known_url(issuer: &str) -> (url: String)
    ensures
        url@ == well_known_url_spec(issuer@),
{
    let mut url = String::new();
    url.append(issuer);
    url.append("/.well-known/openid-configuration");
    proof {
        assert(url@ =~= well_known_url_spec(issuer@));
    }
    url
}

/// The secret sent on the wire: a missing secret (public client) is
/// serialized as an empty string rather than omitted, a compatibility choice.
pub open spec fn secret_or_empty(client_secret: Option<String>) -> Seq<char> {
    match client_secret {
        Some(s) => s@,
        None => Seq::empty(),
    }
}

/// The refresh-grant form body.
pub open spec fn refresh_body_spec(
    client_id: Seq<char>,
    client_secret: Seq<char>,
    refresh_token: Seq<char>,
) -> Seq<char> {
    "grant_type=refresh_token&client_id="@ + client_id + "&client_secret="@ + client_secret
        + "&refresh_token="@ + refresh_token
}

/// The authorization-code-grant form body.
pub open spec fn authorization_code_body_spec(
    client_id: Seq<char>,
    client_secret: Seq<char>,
    redirect: Seq<char>,
    code: Seq<char>,
    verifier: Seq<char>,
) -> Seq<char> {
    "grant_type=authorization_code&client_id="@ + client_id + "&client_secret="@ + client_secret
        + "&redirect_uri="@ + redirect + "&code="@ + code + "&code_verifier="@ + verifier
}

/// The URL the user's browser is sent to for consent.
pub open spec fn authorization_url_spec(
    authorization_endpoint: Seq<char>,
    client_id: Seq<char>,
    redirect: Seq<char>,
    challenge: Seq<char>,
    state_token: Seq<char>,
) -> Seq<char> {
    authorization_endpoint + "?client_id="@ + client_id + "&redirect_uri="@ + redirect
        + "&response_type=code&code_challenge="@ + challenge + "&code_challenge_method=S256&state="@
        + state_token
}

/// One authorization attempt's ephemeral material: the PKCE pair, the CSRF
/// state token, and the consent URL built from them. Single-use; never
/// persisted.
#[derive(Debug, Clone, PartialEq, Eq)]
pub struct AuthorizationAttempt {
    pub verifier: String,
    pub challenge: String,
    pub state: String,
    pub url: String,
}

/// An OAuth2 client for one provider, assembled per acquisition attempt.
#[derive(Debug, Clone, PartialEq, Eq)]
pub struct Oauth2Client {
    pub authorization_endpoint: String,
    pub token_endpoint: String,
    pub client_id: String,
    pub client_secret: Option<String>,
}

impl Oauth2Client {
    /// Assemble a client from a config and the endpoints discovered from its
    /// issuer. Discovery itself is an HTTP fetch of `well_known_url`, done by
    /// the I/O layer before any browser interaction, so a broken issuer fails
    /// fast; the parsed document is handed in here.
    pub fn from_parts(config: &ClientConfig, oidc: OpenIdConfiguration) -> (client: Self)
        ensures
            client.authorization_endpoint == oidc.authorization_endpoint,
            client.token_endpoint == oidc.token_endpoint,
            client.client_id == config.client_id,
            client.client_secret == config.client_secret,
    {
        Oauth2Client {
            authorization_endpoint: oidc.authorization_endpoint,
            token_endpoint: oidc.token_endpoint,
            client_id: config.client_id.clone(),
            client_secret: match &config.client_secret {
                Some(s) => Some(s.clone()),
                None => None,
            },
        }
    }

    /// The issuer named by a config's endpoint; today the only variant.
    pub fn issuer_of(config: &ClientConfig) -> (issuer: &str)
        ensures
            config.endpoint matches Endpoint::Issuer(iss) && issuer@ == iss@,
    {
        match &config.endpoint {
            Endpoint::Issuer(iss) => iss.as_str(),
        }
    }

    /// The client secret as sent on the wire: empty for a public client.
    pub fn client_secret_str(&self) -> (secret: &str)
        ensures
            secret@ == secret_or_empty(self.client_secret),
    {
        match &self.client_secret {
            Some(s) => s.as_str(),
            None => {
                let empty = "";
                proof {
                    reveal_strlit("");
                    assert(empty@ =~= Seq::<char>::empty());
                }
                empty
            },
        }
    }

    /// The form body of a refresh-token exchange for the given refresh token.
    /// The I/O layer posts it to `token_endpoint` as form-urlencoded content
    /// and deserializes the JSON reply into an `AccessTokenResponse`.
    pub fn refresh_request_body(&self, refresh_token: &str) -> (body: String)
        ensures
            body@ == refresh_body_spec(
                self.client_id@,
                secret_or_empty(self.client_secret),
                refresh_token@,
            ),
    {
        let mut body = String::new();
        body.append("grant_type=refresh_token&client_id=");
        body.append(self.client_id.as_str());
        body.append("&client_secret=");
        body.append(self.client_secret_str());
        body.append("&refresh_token=");
        body.append(refresh_token);
        proof {
            assert(body@ =~= refresh_body_spec(
                self.client_id@,
                secret_or_empty(self.client_secret),
                refresh_token@,
            ));
        }
        body
    }

    /// Open an authorization attempt: draw a fresh PKCE verifier and CSRF
    /// state token, derive the challenge, and build the consent URL. The I/O
    /// layer opens the URL in the user's browser and waits on the redirect
    /// listener; the attempt must not outlive that one redirect.
    pub fn begin_authorization(&self) -> (attempt: AuthorizationAttempt)
        ensures
            attempt.verifier@.len() == VERIFIER_LENGTH,
            forall|i: int|
                0 <= i < attempt.verifier@.len() ==> url_safe_alphabet().contains(
                    #[trigger] attempt.verifier@[i],
                ),
            attempt.state@.len() == STATE_LENGTH,
            forall|i: int|
                0 <= i < attempt.state@.len() ==> url_safe_alphabet().contains(
                    #[trigger] attempt.state@[i],
                ),
            attempt.challenge@ == base64url_encode(sha256_of(attempt.verifier@)),
            attempt.url@ == authorization_url_spec(
                self.authorization_endpoint@,
                self.client_id@,
                "http://localhost:4800/"@,
                attempt.challenge@,
                attempt.state@,
            ),
    {
        let state = url_safe_rand(STATE_LENGTH);
        let verifier = url_safe_rand(VERIFIER_LENGTH);
        let challenge = verifier_to_challenge(verifier.as_str());
        let mut url = String::new();
        url.append(self.authorization_endpoint.as_str());
        url.append("?client_id=");
        url.append(self.client_id.as_str());
        url.append("&redirect_uri=");
        url.append(redirect_uri());
        url.append("&response_type=code&code_challenge=");
        url.append(challenge.as_str());
        url.append("&code_challenge_method=S256&state=");
        url.append(state.as_str());
        proof {
            assert(url@ =~= authorization_url_spec(
                self.authorization_endpoint@,
                self.client_id@,
                "http://localhost:4800/"@,
                challenge@,
                state@,
            ));
        }
        AuthorizationAttempt { verifier, challenge, state, url }
    }

    /// Check the redirect's CSRF state against the attempt's and, only on a
    /// match, build the authorization-code exchange body from the returned
    /// code and the attempt's verifier. On a mismatch the whole response is
    /// invalid: the code must not be exchanged, so no body exists to post.
    pub fn finish_authorization(&self, attempt: &AuthorizationAttempt, returned: &ReturnParams) -> (
        result: Result<String, FlowError>)
        ensures
            returned.state@ != attempt.state@ ==> result == Err::<String, FlowError>(
                FlowError::Csrf,
            ),
            returned.state@ == attempt.state@ ==> (result matches Ok(body) && body@
                == authorization_code_body_spec(
                self.client_id@,
                secret_or_empty(self.client_secret),
                "http://localhost:4800/"@,
                returned.code@,
                attempt.verifier@,
            )),
    {
        if !(returned.state == attempt.state) {
            return Err(FlowError::Csrf);
        }
        let mut body = String::new();
        body.append("grant_type=authorization_code&client_id=");
        body.append(self.client_id.as_str());
        body.append("&client_secret=");
        body.append(self.client_secret_str());
        body.append("&redirect_uri=");
        body.append(redirect_uri());
        body.append("&code=");
        body.append(returned.code.as_str());
        body.append("&code_verifier=");
        body.append(attempt.verifier.as_str());
        proof {
            assert(body@ =~= authorization_code_body_spec(
                self.client_id@,
                secret_or_empty(self.client_secret),
                "http://localhost:4800/"@,
                returned.code@,
                attempt.verifier@,
            ));
        }
        Ok(body)
    }
}

} // verus!
