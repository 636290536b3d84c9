//! The token that a request to an upstream carries.
use crate::models::{AuthView, UpstreamAuth};
use crate::text::{opt_text, same};
use vstd::prelude::*;

verus! {

/// The token for an upstream: its key. For accounts that the local proxy manages there is
/// none; the proxy has it.
pub fn get_access_token(auth: &UpstreamAuth) -> (r: Option<String>)
    ensures
        opt_text(r) == auth@.key(),
{
    match auth {
        UpstreamAuth::ApiKey { key } => key.clone(),
        _ => None,
    }
}

/// The token that a request carries: the upstream's, unless it is empty or says that there is
/// none.
pub open spec fn sent_token(auth: AuthView) -> Option<Seq<char>> {
    match auth.key() {
        Some(k) => if k.len() == 0 || k == "none"@ {
            None
        } else {
            Some(k)
        },
        None => None,
    }
}

/// The token that a request carries.
pub fn bearer_token(auth: &UpstreamAuth) -> (r: Option<String>)
    ensures
        opt_text(r) == sent_token(auth@),
{
    match get_access_token(auth) {
        Some(k) => if k.as_str().is_empty() || same(&k, "none") {
            None
        } else {
            Some(k)
        },
        None => None,
    }
}

} // verus!
