use mouflon::config::{get_configs, KeycloakClientConfig, KeycloakClientCredentials};
use mouflon::model::Endpoint;

fn descriptor(secret: Option<&str>) -> KeycloakClientConfig {
    KeycloakClientConfig {
        resource: String::from("my-client"),
        credentials: secret.map(|s| KeycloakClientCredentials { secret: String::from(s) }),
        realm: String::from("dev"),
        auth_server_url: String::from("https://idp.example/auth/"),
        public_client: secret.is_none(),
    }
}

#[test]
fn keycloak_descriptor_becomes_a_client_config() {
    let config = descriptor(Some("s3cret")).into_client_config(String::from("default"));
    assert_eq!(config.name, "default");
    assert_eq!(config.client_id, "my-client");
    assert_eq!(config.client_secret.as_deref(), Some("s3cret"));
    assert_eq!(
        config.endpoint,
        Endpoint::Issuer(String::from("https://idp.example/auth/realms/dev"))
    );
}

#[test]
fn public_keycloak_client_has_no_secret() {
    let config = descriptor(None).into_client_config(String::from("pub"));
    assert_eq!(config.client_secret, None);
}

#[test]
fn a_batch_of_descriptors_is_translated_in_order() {
    let batch = vec![
        (String::from("a"), descriptor(Some("one"))),
        (String::from("b"), descriptor(None)),
    ];
    let configs = get_configs(batch);
    assert_eq!(configs.len(), 2);
    assert_eq!(configs[0].name, "a");
    assert_eq!(configs[0].client_secret.as_deref(), Some("one"));
    assert_eq!(configs[1].name, "b");
    assert_eq!(configs[1].client_secret, None);
}

#[test]
fn an_empty_batch_yields_no_configs() {
    assert!(get_configs(Vec::new()).is_empty());
}
