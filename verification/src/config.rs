use crate::model::{ClientConfig, Endpoint};
use vstd::prelude::*;
use vstd::string::StringExecFns;

verus! {

/// A Keycloak OIDC installation descriptor, as deserialized from a client's
/// JSON config file by the I/O layer.
#[derive(Debug, Clone, PartialEq, Eq)]
pub struct KeycloakClientConfig {
    pub resource: String,
    pub credentials: Option<KeycloakClientCredentials>,
    pub realm: String,
    pub auth_server_url: String,
    pub public_client: bool,
}

/// The confidential-client credentials of a Keycloak descriptor.
#[derive(Debug, Clone, PartialEq, Eq)]
pub struct KeycloakClientCredentials {
    pub secret: String,
}

/// The issuer URL derived from a Keycloak descriptor: the auth-server base
/// URL followed by `realms/` and the realm name.
pub open spec fn keycloak_issuer(auth_server_url: Seq<char>, realm: Seq<char>) -> Seq<char> {
    auth_server_url + "realms/"@ + realm
}

/// `config` is the provider-neutral translation of the Keycloak descriptor
/// `kc` filed under `name`.
pub open spec fn is_keycloak_translation(
    config: ClientConfig,
    name: String,
    kc: KeycloakClientConfig,
) -> bool {
    &&& config.name == name
    &&& config.client_id == kc.resource
    &&& match (kc.credentials, config.client_secret) {
        (Some(c), Some(s)) => s == c.secret,
        (None, None) => true,
        _ => false,
    }
    &&& config.endpoint matches Endpoint::Issuer(iss) && iss@ == keycloak_issuer(
        kc.auth_server_url@,
        kc.realm@,
    )
}

impl KeycloakClientConfig {
    /// Translate this descriptor into the provider-neutral client config,
    /// filed under the given name (the config file's stem).
    pub fn into_client_config(self, name: String) -> (config: ClientConfig)
        ensures
            is_keycloak_translation(config, name, self),
    {
        let mut issuer = self.auth_server_url;
        issuer.append("realms/");
        issuer.append(self.realm.as_str());
        ClientConfig {
            name,
            client_id: self.resource,
            client_secret: match self.credentials {
                Some(c) => Some(c.secret),
                None => None,
            },
            endpoint: Endpoint::Issuer(issuer),
        }
    }
}

/// Translate a batch of named Keycloak descriptors, in order. The I/O layer
/// reads the config directory, deserializes each JSON file, and hands the
/// descriptors here together with their file stems.
pub fn get_configs(configs: Vec<(String, KeycloakClientConfig)>) -> (out: Vec<ClientConfig>)
    ensures
        out@.len() == configs@.len(),
        forall|i: int|
            0 <= i < out@.len() ==> is_keycloak_translation(
                #[trigger] out@[i],
                configs@[i].0,
                configs@[i].1,
            ),
{
    let ghost orig = configs@;
    let mut rest = configs;
    let mut out: Vec<ClientConfig> = Vec::new();
    while rest.len() > 0
        invariant
            out@.len() + rest@.len() == orig.len(),
            rest@ == orig.subrange(out@.len() as int, orig.len() as int),
            forall|i: int|
                0 <= i < out@.len() ==> is_keycloak_translation(
                    #[trigger] out@[i],
                    orig[i].0,
                    orig[i].1,
                ),
        decreases rest@.len(),
    {
        let ghost done = out@.len() as int;
        let (name, kc) = rest.remove(0);
        proof {
            assert(rest@ =~= orig.subrange(done + 1, orig.len() as int));
        }
        out.push(kc.into_client_config(name));
    }
    out
}

} // verus!
