//! Saved responses in their stored form, and the decisions around a claim
//! kept in a relational store.
//!
//! A claim is one row keyed by actor and idempotency key. The row is
//! inserted with an empty payload, which marks the command as in progress,
//! and the payload is filled in once, when the command completes.

use crate::response::{
    copy_bytes, copy_headers, header_views, HeaderPair, HeaderView, HttpResponse, ResponseView,
    StatusCode,
};
use vstd::prelude::*;

verus! {

/// The payload columns of a claim row. All three are absent while the
/// command is in progress and present once it has completed.
#[derive(Debug)]
pub struct StoredResponse {
    pub status_code: Option<i16>,
    pub headers: Option<Vec<HeaderPair>>,
    pub body: Option<Vec<u8>>,
}

/// The mathematical content of a [`StoredResponse`].
pub struct StoredView {
    pub status_code: Option<int>,
    pub headers: Option<Seq<HeaderView>>,
    pub body: Option<Seq<u8>>,
}

impl View for StoredResponse {
    type V = StoredView;

    open spec fn view(&self) -> StoredView {
        StoredView {
            status_code: match self.status_code {
                Some(code) => Some(code as int),
                None => None,
            },
            headers: match self.headers {
                Some(headers) => Some(header_views(headers@)),
                None => None,
            },
            body: match self.body {
                Some(body) => Some(body@),
                None => None,
            },
        }
    }
}

/// Why a claim row could not be turned back into a response.
#[derive(Copy, Clone, Debug, PartialEq, Eq, Structural)]
pub enum RestoreError {
    /// The payload is empty: the command has not completed.
    InProgress,
    /// Some payload columns are filled and others are not.
    Incomplete,
    /// The stored status code is not an HTTP status code.
    InvalidStatusCode,
}

/// The stored form of a response: every column filled.
pub open spec fn stored_form(response: ResponseView) -> StoredView {
    StoredView {
        status_code: Some(response.status_code as int),
        headers: Some(response.headers),
        body: Some(response.body),
    }
}

/// The payload of a claim whose command is in progress: every column
/// empty.
pub open spec fn empty_payload() -> StoredView {
    StoredView { status_code: None, headers: None, body: None }
}

/// The response a stored payload stands for, or why it stands for none.
pub open spec fn restored(stored: StoredView) -> Result<ResponseView, RestoreError> {
    if stored.status_code is None && stored.headers is None && stored.body is None {
        Err(RestoreError::InProgress)
    } else if stored.status_code is None || stored.headers is None || stored.body is None {
        Err(RestoreError::Incomplete)
    } else if !(100 <= stored.status_code->0 <= 999) {
        Err(RestoreError::InvalidStatusCode)
    } else {
        Ok(
            ResponseView {
                status_code: stored.status_code->0 as u16,
                headers: stored.headers->0,
                body: stored.body->0,
            },
        )
    }
}

/// A stored response restores to exactly the response it was made from:
/// the same status, the same headers in the same order, the same body.
pub proof fn lemma_stored_response_round_trip(response: ResponseView)
    requires
        100 <= response.status_code <= 999,
    ensures
        restored(stored_form(response)) == Ok::<ResponseView, RestoreError>(response),
{
}

impl StoredResponse {
    /// The payload of a claim whose command is in progress.
    pub fn in_progress() -> (stored: StoredResponse)
        ensures
            stored@ == empty_payload(),
    {
        StoredResponse { status_code: None, headers: None, body: None }
    }

    /// The stored form of `response`.
    pub fn from_response(response: &HttpResponse) -> (stored: StoredResponse)
        ensures
            stored@ == stored_form(response@),
            restored(stored@) == Ok::<ResponseView, RestoreError>(response@),
    {
        let code: u16 = response.status_code.as_u16();
        StoredResponse {
            status_code: Some(code as i16),
            headers: Some(copy_headers(&response.headers)),
            body: Some(copy_bytes(&response.body)),
        }
    }

    /// Turns the payload back into the response it was made from. Fails
    /// when the payload is empty, half filled, or holds a number that is no
    /// status code.
    pub fn into_response(self) -> (response: Result<HttpResponse, RestoreError>)
        ensures
            match response {
                Ok(response) => restored(self@) == Ok::<ResponseView, RestoreError>(response@),
                Err(error) => restored(self@) == Err::<ResponseView, RestoreError>(error),
            },
    {
        let StoredResponse { status_code, headers, body } = self;
        match (status_code, headers, body) {
            (None, None, None) => Err(RestoreError::InProgress),
            (Some(code), Some(headers), Some(body)) => {
                if code < 100 || code > 999 {
                    return Err(RestoreError::InvalidStatusCode);
                }
                match StatusCode::from_u16(code as u16) {
                    Some(status_code) => Ok(HttpResponse { status_code, headers, body }),
                    None => Err(RestoreError::InvalidStatusCode),
                }
            },
            _ => Err(RestoreError::Incomplete),
        }
    }
}

/// What a request for a claim is told. `T` is the handle of the open
/// transaction that holds the claim.
#[derive(Debug)]
pub enum NextAction<T> {
    /// The claim is the caller's: run the command inside this transaction,
    /// then complete it.
    StartProcessing(T),
    /// The command has been completed before: answer with this response.
    ReturnSavedResponse(HttpResponse),
    /// Another request holds the claim and has not finished: ask again.
    InProgress,
}

/// What the guard does after it has tried to insert the claim row.
#[derive(Copy, Clone, Debug, PartialEq, Eq, Structural)]
pub enum ClaimAttempt {
    /// The row was inserted: the claim is the caller's, and the open
    /// transaction that inserted it is the one to run the command in.
    Won,
    /// The row was already there: roll the transaction back and fetch the
    /// saved response.
    Lost,
}

/// Reads the outcome of an insert that skips on conflict: the claim is won
/// exactly when a row was inserted.
pub fn claim_attempt(n_inserted_rows: u64) -> (attempt: ClaimAttempt)
    ensures
        attempt == (if n_inserted_rows > 0 {
            ClaimAttempt::Won
        } else {
            ClaimAttempt::Lost
        }),
{
    if n_inserted_rows > 0 {
        ClaimAttempt::Won
    } else {
        ClaimAttempt::Lost
    }
}

/// Why the guard could not answer a request.
#[derive(Copy, Clone, Debug, PartialEq, Eq, Structural)]
pub enum GuardError {
    /// The claim was lost, yet no row was found under the key.
    MissingSavedResponse,
    /// The row found could not be turned back into a response.
    Unreadable(RestoreError),
}

/// The answer to a request that lost the claim, given the row found under
/// its key, if one was found.
pub open spec fn replayed(found: Option<StoredView>) -> Result<ResponseView, GuardError> {
    match found {
        None => Err(GuardError::MissingSavedResponse),
        Some(stored) => match restored(stored) {
            Ok(response) => Ok(response),
            Err(error) => Err(GuardError::Unreadable(error)),
        },
    }
}

/// The view of a row that may be absent.
pub open spec fn found_view(found: Option<StoredResponse>) -> Option<StoredView> {
    match found {
        Some(stored) => Some(stored@),
        None => None,
    }
}

/// Answers a request that lost the claim with the response saved under its
/// key. Fails when no row was found, or when the row cannot be read back.
pub fn replay(found: Option<StoredResponse>) -> (answer: Result<HttpResponse, GuardError>)
    ensures
        match answer {
            Ok(response) => replayed(found_view(found)) == Ok::<ResponseView, GuardError>(
                response@,
            ),
            Err(error) => replayed(found_view(found)) == Err::<ResponseView, GuardError>(error),
        },
{
    match found {
        None => Err(GuardError::MissingSavedResponse),
        Some(stored) => match stored.into_response() {
            Ok(response) => Ok(response),
            Err(error) => Err(GuardError::Unreadable(error)),
        },
    }
}

} // verus!
