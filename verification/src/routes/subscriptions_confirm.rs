//! Confirming a subscription by following the link in the confirmation
//! email.

use crate::error::ErrorChain;
use crate::response::StatusCode;
use crate::store::memory::Store;
use vstd::prelude::*;

verus! {

/// What the confirmation link carries.
#[derive(Debug)]
pub struct Parameters {
    pub subscription_token: String,
}

/// What to do once the token has been looked up.
#[derive(Debug)]
pub enum AfterLookup {
    /// Answer with this status; nothing is to be changed.
    Answer(StatusCode),
    /// Mark this subscriber as confirmed.
    Confirm(u128),
}

/// Decides what to do once the token has been looked up: a lookup that
/// broke down is answered with `500 Internal Server Error`, a token handed
/// to no one with `401 Unauthorized`, and otherwise the subscriber found is
/// to be confirmed.
pub fn after_lookup(found: Result<Option<u128>, ErrorChain>) -> (next: AfterLookup)
    ensures
        match found {
            Err(_) => next matches AfterLookup::Answer(status) && status@ == 500,
            Ok(None) => next matches AfterLookup::Answer(status) && status@ == 401,
            Ok(Some(subscriber_id)) => next matches AfterLookup::Confirm(chosen) && chosen
                == subscriber_id,
        },
{
    match found {
        Err(_) => AfterLookup::Answer(StatusCode::internal_server_error()),
        Ok(None) => AfterLookup::Answer(StatusCode::unauthorized()),
        Ok(Some(subscriber_id)) => AfterLookup::Confirm(subscriber_id),
    }
}

/// The status that answers the visitor once the subscriber has been marked:
/// `200 OK` if that worked, `500 Internal Server Error` if it did not.
pub fn after_confirmation(marked: Result<(), ErrorChain>) -> (status: StatusCode)
    ensures
        status@ == (if marked is Ok {
            200u16
        } else {
            500u16
        }),
{
    match marked {
        Ok(_) => StatusCode::ok(),
        Err(_) => StatusCode::internal_server_error(),
    }
}

/// Confirms the subscriber that the token was handed to. A token that was
/// handed to no one is answered with `401 Unauthorized` and changes
/// nothing; otherwise the subscriber is marked confirmed and the answer is
/// `200 OK`.
pub fn confirm(store: &mut Store, parameters: &Parameters) -> (status: StatusCode)
    requires
        old(store).wf(),
    ensures
        final(store).wf(),
        match old(store)@.subscriber_id_from_token(parameters.subscription_token@) {
            None => status@ == 401 && final(store)@ == old(store)@,
            Some(subscriber_id) => status@ == 200 && final(store)@ == old(
                store,
            )@.confirm_subscriber(subscriber_id),
        },
{
    let found = store.subscriber_id_from_token(parameters.subscription_token.as_str());
    match after_lookup(Ok(found)) {
        AfterLookup::Answer(status) => status,
        AfterLookup::Confirm(subscriber_id) => {
            store.confirm_subscriber(subscriber_id);
            after_confirmation(Ok(()))
        },
    }
}

} // verus!
