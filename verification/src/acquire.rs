use crate::model::AuthorizationData;
use crate::valid::{access_token_valid, is_at_valid, is_rt_valid, refresh_token_valid};
use vstd::prelude::*;

verus! {

/// The step the orchestrator has decided to take for one acquisition attempt.
/// The three steps are mutually exclusive and ordered by cost: no network at
/// all, one refresh exchange, or the full interactive authorization flow.
#[derive(Debug, Clone, PartialEq, Eq)]
pub enum AcquisitionStep {
    /// The cached access token is still usable: return it, no network call.
    UseCached { access_token: String },
    /// The access token lapsed but the refresh token is usable: run the
    /// refresh flow with this token.
    Refresh { refresh_token: String },
    /// No usable history: run the full interactive authorization flow.
    Authorize,
}

/// Decide which flow to run, given the cache record for this identity (or
/// `None` when there is no readable record) and the current time. Evaluated
/// in fixed priority order: cached token first, refresh next, full
/// authorization last.
pub fn decide_acquisition(cached: Option<AuthorizationData>, now_millis: i64) -> (step:
    AcquisitionStep)
    ensures
        match cached {
            Some(data) => {
                if access_token_valid(data, now_millis) {
                    step == (AcquisitionStep::UseCached {
                        access_token: data.at_response.access_token,
                    })
                } else if refresh_token_valid(data, now_millis) {
                    step == (AcquisitionStep::Refresh {
                        refresh_token: data.at_response.refresh_token,
                    })
                } else {
                    step == AcquisitionStep::Authorize
                }
            },
            None => step == AcquisitionStep::Authorize,
        },
{
    match cached {
        Some(data) => {
            if is_at_valid(&data, now_millis) {
                AcquisitionStep::UseCached { access_token: data.at_response.access_token }
            } else if is_rt_valid(&data, now_millis) {
                AcquisitionStep::Refresh { refresh_token: data.at_response.refresh_token }
            } else {
                AcquisitionStep::Authorize
            }
        },
        None => AcquisitionStep::Authorize,
    }
}

} // verus!
