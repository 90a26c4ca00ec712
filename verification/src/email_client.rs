//! What the service asks of whoever sends its email: the message to send,
//! and how a failure to send it is to be read.

use crate::store::model::DeliveryOutcome;
use vstd::prelude::*;

verus! {

/// One email to be sent.
#[derive(Debug)]
pub struct Email {
    pub recipient: String,
    pub subject: String,
    pub html_content: String,
    pub text_content: String,
}

/// The mathematical content of an [`Email`].
pub struct EmailView {
    pub recipient: Seq<char>,
    pub subject: Seq<char>,
    pub html_content: Seq<char>,
    pub text_content: Seq<char>,
}

impl View for Email {
    type V = EmailView;

    open spec fn view(&self) -> EmailView {
        EmailView {
            recipient: self.recipient@,
            subject: self.subject@,
            html_content: self.html_content@,
            text_content: self.text_content@,
        }
    }
}

/// How an attempt to send an email went wrong.
#[derive(Copy, Clone, Debug, PartialEq, Eq, Structural)]
pub enum SendFailure {
    /// The mail service did not answer in time.
    Timeout,
    /// The mail service could not be reached.
    Connection,
    /// The mail service answered with this status.
    Status(u16),
    /// The recipient's address is malformed.
    InvalidRecipient,
}

/// How the result of sending is read: a timeout, an unreachable service or
/// a 5xx answer may pass, so the failure is transient; a malformed address
/// or any other answer will not, so the failure is permanent.
pub open spec fn outcome_of(sent: Result<(), SendFailure>) -> DeliveryOutcome {
    match sent {
        Ok(_) => DeliveryOutcome::Delivered,
        Err(SendFailure::Timeout) => DeliveryOutcome::TransientFailure,
        Err(SendFailure::Connection) => DeliveryOutcome::TransientFailure,
        Err(SendFailure::Status(status)) => if 500 <= status <= 599 {
            DeliveryOutcome::TransientFailure
        } else {
            DeliveryOutcome::PermanentFailure
        },
        Err(SendFailure::InvalidRecipient) => DeliveryOutcome::PermanentFailure,
    }
}

/// Reads the result of sending an email as the outcome of a delivery
/// attempt.
pub fn classify(sent: Result<(), SendFailure>) -> (outcome: DeliveryOutcome)
    ensures
        outcome == outcome_of(sent),
{
    match sent {
        Ok(_) => DeliveryOutcome::Delivered,
        Err(SendFailure::Timeout) => DeliveryOutcome::TransientFailure,
        Err(SendFailure::Connection) => DeliveryOutcome::TransientFailure,
        Err(SendFailure::Status(status)) => {
            if 500 <= status && status <= 599 {
                DeliveryOutcome::TransientFailure
            } else {
                DeliveryOutcome::PermanentFailure
            }
        },
        Err(SendFailure::InvalidRecipient) => DeliveryOutcome::PermanentFailure,
    }
}

} // verus!
