//! The delivery worker's decisions: what becomes of a queue row after an
//! attempt, and what the worker does next.

use crate::domain::{is_valid_email, valid_email};
use crate::email_client::{classify, outcome_of, Email, EmailView, SendFailure};
use crate::store::memory::{Store, Task};
use crate::store::model::{
    disposition_of, DeliveryOutcome, Disposition, IssueView, StoreView, TaskView,
    MAX_DELIVERY_ATTEMPTS,
};
use crate::store::preservation::lemma_task_issue_exists;
use vstd::prelude::*;
use vstd::string::*;

verus! {

/// What becomes of a row that has failed `attempts` times before, after an
/// attempt that ended in `outcome`: deleted after a delivery, failed for
/// good after a permanent failure or the last allowed transient one, and
/// otherwise kept for another try.
pub fn disposition(attempts: u32, outcome: DeliveryOutcome) -> (decided: Disposition)
    ensures
        decided == disposition_of(attempts, outcome),
{
    match outcome {
        DeliveryOutcome::Delivered => Disposition::Delete,
        DeliveryOutcome::PermanentFailure => Disposition::Fail,
        DeliveryOutcome::TransientFailure => {
            if attempts >= MAX_DELIVERY_ATTEMPTS - 1 {
                Disposition::Fail
            } else {
                Disposition::Retry
            }
        },
    }
}

/// How long, in seconds, the worker rests when it finds the queue empty.
pub const IDLE_WAIT_SECS: u64 = 10;

/// How long, in seconds, the worker rests after a run that broke down.
pub const ERROR_WAIT_SECS: u64 = 1;

/// How one run of the worker ended.
#[derive(Copy, Clone, Debug, PartialEq, Eq, Structural)]
pub enum ExecutionOutcome {
    /// One queue row was dealt with.
    TaskCompleted,
    /// There was nothing to do.
    EmptyQueue,
}

/// What the worker is to do with the row it was handed.
#[derive(Debug)]
pub enum Delivery {
    /// Nothing: no row is waiting.
    Idle,
    /// Nothing: the row could never be delivered and has been marked
    /// failed.
    Skipped,
    /// Send this email, then report how sending went for the row held.
    Send(Task, Email),
}

/// The mathematical content of a [`Delivery`].
pub enum DeliveryView {
    Idle,
    Skipped,
    Send(TaskView, EmailView),
}

impl View for Delivery {
    type V = DeliveryView;

    open spec fn view(&self) -> DeliveryView {
        match self {
            Delivery::Idle => DeliveryView::Idle,
            Delivery::Skipped => DeliveryView::Skipped,
            Delivery::Send(task, email) => DeliveryView::Send(task@, email@),
        }
    }
}

/// The email that delivers `issue` to `recipient`.
pub open spec fn issue_email(issue: IssueView, recipient: Seq<char>) -> EmailView {
    EmailView {
        recipient,
        subject: issue.title,
        html_content: issue.html_body,
        text_content: issue.text_body,
    }
}

/// Writes the email that delivers an issue to `recipient`.
pub fn email_for(
    recipient: &str,
    title: &str,
    html_body: &str,
    text_body: &str,
) -> (email: Email)
    ensures
        email@ == (EmailView {
            recipient: recipient@,
            subject: title@,
            html_content: html_body@,
            text_content: text_body@,
        }),
{
    Email {
        recipient: recipient.to_owned(),
        subject: title.to_owned(),
        html_content: html_body.to_owned(),
        text_content: text_body.to_owned(),
    }
}

/// The start of one run of the worker.
///
/// The worker asks the store for work. With no row waiting it is idle and
/// the store is left alone. A row whose address is malformed can never be
/// delivered: it is marked failed at once, without a send. Any other row
/// stays locked while the email with its issue is sent.
pub open spec fn delivery_started(store: StoreView) -> (StoreView, DeliveryView) {
    let (locked, handed) = store.next_task();
    match handed {
        None => (locked, DeliveryView::Idle),
        Some(task) => if is_valid_email(task.recipient) {
            (
                locked,
                DeliveryView::Send(
                    task,
                    issue_email(locked.issue(task.issue_id)->0, task.recipient),
                ),
            )
        } else {
            (
                locked.finish_task(task, DeliveryOutcome::PermanentFailure),
                DeliveryView::Skipped,
            )
        },
    }
}

/// Starts one run of the worker: takes the next row off the queue, if
/// there is one, and says what to send. The call never waits for a row that
/// another worker holds.
pub fn next_delivery(store: &mut Store) -> (delivery: Delivery)
    requires
        old(store).wf(),
    ensures
        final(store).wf(),
        (final(store)@, delivery@) == delivery_started(old(store)@),
{
    proof {
        store.lemma_view_wf();
        if store@.next_task().1 is Some {
            lemma_task_issue_exists(store@);
        }
    }
    let task = match store.next_task() {
        None => {
            return Delivery::Idle;
        },
        Some(task) => task,
    };
    if !valid_email(task.recipient.as_str()) {
        store.finish_task(&task, DeliveryOutcome::PermanentFailure);
        return Delivery::Skipped;
    }
    match store.issue(task.issue_id) {
        None => {
            assert(false);
            vstd::pervasive::unreached()
        },
        Some(issue) => {
            let email = email_for(
                task.recipient.as_str(),
                issue.title.as_str(),
                issue.html_body.as_str(),
                issue.text_body.as_str(),
            );
            Delivery::Send(task, email)
        },
    }
}

/// Ends one run of the worker: records how sending the email for `task`
/// went. A sent email deletes the row; a failure that may pass keeps it for
/// another try, up to the allowed number of attempts; any other failure
/// marks it failed for good. The answer says what became of the row, for
/// the log; whoever published the issue is never told.
pub fn record_delivery(store: &mut Store, task: &Task, sent: Result<(), SendFailure>) -> (settled:
    Option<Disposition>)
    requires
        old(store).wf(),
    ensures
        final(store).wf(),
        final(store)@ == old(store)@.finish_task(task@, outcome_of(sent)),
        settled == old(store)@.settlement(task@, outcome_of(sent)),
{
    store.finish_task(task, classify(sent))
}

/// How one run of the worker ended, given what it started with.
pub fn run_outcome(delivery: &Delivery) -> (outcome: ExecutionOutcome)
    ensures
        outcome == (if delivery@ is Idle {
            ExecutionOutcome::EmptyQueue
        } else {
            ExecutionOutcome::TaskCompleted
        }),
{
    match delivery {
        Delivery::Idle => ExecutionOutcome::EmptyQueue,
        _ => ExecutionOutcome::TaskCompleted,
    }
}

/// How long the worker rests before its next run, in seconds: not at all
/// after a row was dealt with, [`IDLE_WAIT_SECS`] when the queue was empty,
/// and [`ERROR_WAIT_SECS`] when the run broke down. An empty queue is never
/// polled without a rest.
pub fn pause_after(run: Result<ExecutionOutcome, ()>) -> (rest: u64)
    ensures
        rest == (match run {
            Ok(ExecutionOutcome::TaskCompleted) => 0,
            Ok(ExecutionOutcome::EmptyQueue) => IDLE_WAIT_SECS,
            Err(_) => ERROR_WAIT_SECS,
        }),
{
    match run {
        Ok(ExecutionOutcome::TaskCompleted) => 0,
        Ok(ExecutionOutcome::EmptyQueue) => IDLE_WAIT_SECS,
        Err(_) => ERROR_WAIT_SECS,
    }
}

} // verus!
