use crate::model::{FlowError, ReturnParams};
use vstd::prelude::*;
use vstd::string::StringExecFns;

verus! {

/// The name/value pairs denoted by a form-urlencoded query string, split on
/// `&` and `=` and percent-decoded; named here, computed by
/// `parse_query_pairs` below.
pub uninterp spec fn form_pairs(query: Seq<char>) -> Seq<(Seq<char>, Seq<char>)>;

/// The views of a vector of owned string pairs.
pub open spec fn pairs_view(pairs: Seq<(String, String)>) -> Seq<(Seq<char>, Seq<char>)> {
    pairs.map_values(|p: (String, String)| (p.0@, p.1@))
}

/// Relies on `url::form_urlencoded::parse`: splits the query on `&` into
/// `name=value` sequences and percent-decodes both sides; the pairs are a
/// function of the query string alone.
#[verifier::external_body]
fn parse_query_pairs(query: &str) -> (pairs: Vec<(String, String)>)
    ensures
        pairs_view(pairs@) == form_pairs(query@),
{
    url::form_urlencoded::parse(query.as_bytes()).into_owned().collect()
}

/// The value of the last pair named `key`, if any. The last occurrence wins,
/// as when the pairs are collected into a map.
pub open spec fn lookup_last(pairs: Seq<(Seq<char>, Seq<char>)>, key: Seq<char>) -> Option<
    Seq<char>,
>
    decreases pairs.len(),
{
    if pairs.len() == 0 {
        None
    } else if pairs.last().0 == key {
        Some(pairs.last().1)
    } else {
        lookup_last(pairs.drop_last(), key)
    }
}

/// Find the value of the last pair whose name equals `key`.
fn lookup_pair(pairs: &Vec<(String, String)>, key: &String) -> (found: Option<String>)
    ensures
        match lookup_last(pairs_view(pairs@), key@) {
            Some(v) => found matches Some(s) && s@ == v,
            None => found is None,
        },
{
    let mut found: Option<String> = None;
    let mut i: usize = 0;
    while i < pairs.len()
        invariant
            i <= pairs@.len(),
            match lookup_last(pairs_view(pairs@).take(i as int), key@) {
                Some(v) => found matches Some(s) && s@ == v,
                None => found is None,
            },
        decreases pairs@.len() - i,
    {
        if pairs[i].0.eq(key) {
            found = Some(pairs[i].1.clone());
        }
        proof {
            let pv = pairs_view(pairs@);
            assert(pv[i as int] == (pairs@[i as int].0@, pairs@[i as int].1@));
            assert(pv.take(i as int + 1).drop_last() =~= pv.take(i as int));
            assert(pv.take(i as int + 1).last() == pv[i as int]);
        }
        i += 1;
    }
    proof {
        assert(pairs_view(pairs@).take(pairs@.len() as int) =~= pairs_view(pairs@));
    }
    found
}

/// What `receive_redirect` resolves to for a given query string: the decoded
/// `code` and `state` values, or a protocol violation when either is absent.
pub open spec fn redirect_outcome(query: Seq<char>) -> Result<(Seq<char>, Seq<char>), FlowError> {
    match (lookup_last(form_pairs(query), "code"@), lookup_last(form_pairs(query), "state"@)) {
        (Some(code), Some(st)) => Ok((code, st)),
        _ => Err(FlowError::MissingRedirectParam),
    }
}

/// Extract the authorization response from a redirect's query string. The
/// absence of either parameter is a protocol violation: nothing is guessed
/// or substituted.
pub fn return_params_from_query(query: &str) -> (result: Result<ReturnParams, FlowError>)
    ensures
        match redirect_outcome(query@) {
            Ok(p) => result matches Ok(r) && r.code@ == p.0 && r.state@ == p.1,
            Err(e) => result == Err::<ReturnParams, FlowError>(e),
        },
{
    let pairs = parse_query_pairs(query);
    let code_key = String::from_str("code");
    let state_key = String::from_str("state");
    let code = lookup_pair(&pairs, &code_key);
    let state = lookup_pair(&pairs, &state_key);
    match (code, state) {
        (Some(code), Some(state)) => Ok(ReturnParams { code, state }),
        _ => Err(FlowError::MissingRedirectParam),
    }
}

/// The listener's single-use hand-off slot: the request-handling side offers
/// each arriving redirect, and only the first offer is kept; the waiting side
/// takes the value once.
pub struct RedirectSlot {
    pub delivered: Option<ReturnParams>,
}

impl RedirectSlot {
    /// An empty slot: nothing delivered yet.
    pub fn new() -> (slot: Self)
        ensures
            slot.delivered is None,
    {
        RedirectSlot { delivered: None }
    }

    /// Offer one redirect's parameters. The first offer fills the slot and
    /// is accepted; every later offer leaves the slot unchanged and is
    /// refused, so the first delivery alone decides the result.
    pub fn offer(&mut self, params: ReturnParams) -> (accepted: bool)
        ensures
            old(self).delivered is None ==> accepted && final (self).delivered == Some(params),
            old(self).delivered is Some ==> !accepted && *final (self) == *old(self),
    {
        match &self.delivered {
            None => {
                self.delivered = Some(params);
                true
            },
            Some(_) => false,
        }
    }

    /// Take the delivered parameters, leaving the slot spent.
    pub fn take(&mut self) -> (params: Option<ReturnParams>)
        ensures
            params == old(self).delivered,
            final (self).delivered is None,
    {
        self.delivered.take()
    }
}

} // verus!
