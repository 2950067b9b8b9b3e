use crate::model::{AccessTokenResponse, AuthorizationData};
use vstd::prelude::*;
use vstd::string::StringExecFns;

verus! {

/// The last millisecond of year 9999, the latest capture time the cache
/// codec will format.
pub const MAX_IAT_MILLIS: i64 = 253_402_300_799_999;

/// Capture times the cache codec can format as a timestamp: the Unix epoch
/// through the end of year 9999, in milliseconds.
pub open spec fn iat_in_range(iat_millis: i64) -> bool {
    0 <= iat_millis <= MAX_IAT_MILLIS
}

/// The path of the cache record for one identity: one JSON file per config
/// name, directly under the cache directory.
pub open spec fn cache_file_path_spec(cache_dir: Seq<char>, config_name: Seq<char>) -> Seq<char> {
    cache_dir + "/"@ + config_name + ".json"@
}

/// Where the cache record for `config_name` lives under `cache_dir`.
pub fn cache_file_path(cache_dir: &str, config_name: &str) -> (path: String)
    ensures
        path@ == cache_file_path_spec(cache_dir@, config_name@),
{
    let mut path = String::new();
    path.append(cache_dir);
    path.append("/");
    path.append(config_name);
    path.append(".json");
    proof {
        assert(path@ =~= cache_file_path_spec(cache_dir@, config_name@));
    }
    path
}

/// Relies on `chrono::Utc::now`: the wall clock, in milliseconds since the
/// Unix epoch. Nothing is assumed of the reading.
#[verifier::external_body]
fn now_millis() -> i64 {
    chrono::Utc::now().timestamp_millis()
}

/// Clamp a clock reading into the range the cache codec can format.
fn clamp_iat(reading: i64) -> (iat: i64)
    ensures
        iat_in_range(iat),
        iat_in_range(reading) ==> iat == reading,
{
    if reading < 0 {
        0
    } else if reading > MAX_IAT_MILLIS {
        MAX_IAT_MILLIS
    } else {
        reading
    }
}

/// Wrap a freshly granted response into the record to persist, capturing the
/// current time as `iat`. The capture time is the client's own clock, so the
/// expiry arithmetic never depends on the provider's clock.
pub fn current_authorization_data(at_response: AccessTokenResponse) -> (data: AuthorizationData)
    ensures
        data.at_response == at_response,
        iat_in_range(data.iat),
{
    AuthorizationData { iat: clamp_iat(now_millis()), at_response }
}

} // verus!
