use mouflon::cache::{cache_file_path, current_authorization_data};
use mouflon::codec::{encode_authorization_data, parse_authorization_data};
use mouflon::model::{AccessTokenResponse, AuthorizationData};

fn sample() -> AuthorizationData {
    AuthorizationData {
        iat: 1_700_000_000_123,
        at_response: AccessTokenResponse {
            access_token: String::from("eyJhbGciOiJSUzI1NiJ9.payload.sig"),
            expires_in: 300,
            refresh_expires_in: 1800,
            refresh_token: String::from("refresh-me"),
        },
    }
}

#[test]
fn record_round_trips() {
    let data = sample();
    let text = encode_authorization_data(&data);
    let back = parse_authorization_data(&text).expect("own encoding must parse");
    assert_eq!(back, data);
}

#[test]
fn record_round_trips_with_escaped_characters() {
    let mut data = sample();
    data.at_response.access_token = String::from("with \"quotes\" and \\slashes\\");
    data.at_response.refresh_token = String::from("\\\"");
    let text = encode_authorization_data(&data);
    let back = parse_authorization_data(&text).expect("own encoding must parse");
    assert_eq!(back, data);
}

#[test]
fn record_round_trips_at_extreme_lifetimes() {
    let mut data = sample();
    data.iat = 0;
    data.at_response.expires_in = u64::MAX;
    data.at_response.refresh_expires_in = 0;
    let text = encode_authorization_data(&data);
    let back = parse_authorization_data(&text).expect("own encoding must parse");
    assert_eq!(back, data);
}

#[test]
fn encoded_record_is_the_documented_json_layout() {
    let data = sample();
    let text = encode_authorization_data(&data);
    assert!(text.starts_with("{\"iat\":\""));
    assert!(text.contains("\",\"at_response\":{\"access_token\":\""));
    assert!(text.contains("\",\"expires_in\":300,\"refresh_expires_in\":1800,\"refresh_token\":\""));
    assert!(text.ends_with("\"}}"));
    // the timestamp is the RFC 3339 rendering of iat
    assert!(text.contains("2023-11-14T22:13:20.123+00:00"));
}

#[test]
fn parsing_garbage_is_absent_not_an_error() {
    assert!(parse_authorization_data("").is_none());
    assert!(parse_authorization_data("not json at all").is_none());
    assert!(parse_authorization_data("{\"iat\":\"2023-11-14T22:13:20.123+00:00\"}").is_none());
    assert!(parse_authorization_data("{}").is_none());
}

#[test]
fn parsing_a_bad_timestamp_is_absent() {
    let text = "{\"iat\":\"yesterday\",\"at_response\":{\"access_token\":\"a\",\"expires_in\":60,\"refresh_expires_in\":120,\"refresh_token\":\"r\"}}";
    assert!(parse_authorization_data(text).is_none());
}

#[test]
fn parsing_accepts_the_alias_key_casing() {
    let text = "{\"iat\":\"2023-11-14T22:13:20.123+00:00\",\"atResponse\":{\"access_token\":\"a\",\"expires_in\":60,\"refresh_expires_in\":120,\"refresh_token\":\"r\"}}";
    let back = parse_authorization_data(text).expect("alias casing must be read");
    assert_eq!(back.iat, 1_700_000_000_123);
    assert_eq!(back.at_response.access_token, "a");
    assert_eq!(back.at_response.expires_in, 60);
    assert_eq!(back.at_response.refresh_expires_in, 120);
    assert_eq!(back.at_response.refresh_token, "r");
}

#[test]
fn parsing_rejects_an_oversized_lifetime() {
    // one more than u64::MAX
    let text = "{\"iat\":\"2023-11-14T22:13:20.123+00:00\",\"at_response\":{\"access_token\":\"a\",\"expires_in\":18446744073709551616,\"refresh_expires_in\":120,\"refresh_token\":\"r\"}}";
    assert!(parse_authorization_data(text).is_none());
}

#[test]
fn parsing_rejects_trailing_text() {
    let data = sample();
    let mut text = encode_authorization_data(&data);
    text.push_str(" ");
    assert!(parse_authorization_data(&text).is_none());
}

#[test]
fn cache_path_is_one_json_file_per_name() {
    assert_eq!(cache_file_path("/tmp/cache", "default"), "/tmp/cache/default.json");
    assert_eq!(cache_file_path("c", "n"), "c/n.json");
}

#[test]
fn capture_wraps_the_response_with_the_clock() {
    let atr = AccessTokenResponse {
        access_token: String::from("a"),
        expires_in: 60,
        refresh_expires_in: 120,
        refresh_token: String::from("r"),
    };
    let data = current_authorization_data(atr.clone());
    assert_eq!(data.at_response, atr);
    // the clock reading is captured in a formattable range, and this test
    // does not run before the Unix epoch
    assert!(data.iat > 0);
}
