//! The store as a mathematical value, and every operation on it as a
//! function from one such value to the next.

use crate::authentication::middleware::UserId;
use crate::response::ResponseView;
use vstd::prelude::*;
use vstd::string::*;

verus! {

/// How long, in seconds, a claim may stay open. A claim older than this
/// counts as abandoned: the next request for the same key takes it over,
/// and whatever its first holder wrote is discarded.
pub const MAX_CLAIM_LIFETIME_SECS: u64 = 60;

/// How many times delivery of one queue row is tried before the row is
/// given up as failed.
pub const MAX_DELIVERY_ATTEMPTS: u32 = 5;

/// Whether a claim taken at `claimed_at` has outlived its lifetime at `now`.
pub open spec fn claim_expired(claimed_at: u64, now: u64) -> bool {
    now - claimed_at > MAX_CLAIM_LIFETIME_SECS
}

/// What a claim is taken on: one key of one actor.
pub struct ClaimKey {
    pub actor: UserId,
    pub key: Seq<char>,
}

/// Whether a subscriber has confirmed their address.
#[derive(Copy, Clone, Debug, PartialEq, Eq, Structural)]
pub enum SubscriptionStatus {
    PendingConfirmation,
    Confirmed,
}

/// One row of the subscriptions table.
pub struct SubscriberView {
    pub id: u128,
    pub email: Seq<char>,
    pub name: Seq<char>,
    pub subscribed_at: u64,
    pub status: SubscriptionStatus,
}

/// One row of the subscription tokens table.
pub struct TokenView {
    pub token: Seq<char>,
    pub subscriber_id: u128,
}

/// One newsletter issue, with the command that published it.
pub struct IssueView {
    pub id: u64,
    pub command: ClaimKey,
    pub title: Seq<char>,
    pub text_body: Seq<char>,
    pub html_body: Seq<char>,
    pub created_at: u64,
}

/// Whether a queue row can still be delivered.
#[derive(Copy, Clone, Debug, PartialEq, Eq, Structural)]
pub enum DeliveryState {
    /// Waiting for a worker.
    Pending,
    /// Given up for good; no worker touches it again.
    Failed,
}

/// One row of the delivery queue: one issue owed to one recipient.
pub struct QueueRowView {
    pub issue_id: u64,
    pub recipient: Seq<char>,
    pub attempts: u32,
    pub state: DeliveryState,
    pub locked: bool,
}

/// An open transaction: the claim it holds and what it has written so far,
/// none of it visible to anyone else until it commits.
pub struct TransactionView {
    pub claim: ClaimKey,
    pub claimed_at: u64,
    /// The issue written, if one has been.
    pub issue: Option<IssueView>,
    /// The fan-out of that issue.
    pub deliveries: Seq<QueueRowView>,
}

/// Why the store refused an operation.
#[derive(Copy, Clone, Debug, PartialEq, Eq, Structural)]
pub enum StoreError {
    /// The transaction is not open: it was never begun, has ended, or lost
    /// its claim to a later request after outliving its lifetime.
    NoSuchTransaction,
    /// The store has run out of identifiers.
    Exhausted,
    /// Another subscriber already has this email address.
    DuplicateEmail,
    /// The transaction has written its issue already; a command publishes
    /// one issue and no more.
    AlreadyEnqueued,
}

impl StoreError {
    /// The message for this error.
    pub open spec fn message_text(self) -> Seq<char> {
        match self {
            StoreError::NoSuchTransaction => "The transaction is not open"@,
            StoreError::Exhausted => "The store has run out of identifiers"@,
            StoreError::DuplicateEmail => "The email address is already subscribed"@,
            StoreError::AlreadyEnqueued => "The transaction has already written its issue"@,
        }
    }

    /// The message for this error.
    pub fn message(&self) -> (text: String)
        ensures
            text@ == self.message_text(),
    {
        match self {
            StoreError::NoSuchTransaction => String::from_str("The transaction is not open"),
            StoreError::Exhausted => String::from_str("The store has run out of identifiers"),
            StoreError::DuplicateEmail => String::from_str(
                "The email address is already subscribed",
            ),
            StoreError::AlreadyEnqueued => String::from_str(
                "The transaction has already written its issue",
            ),
        }
    }
}

/// What a request for a claim is told.
pub enum ClaimView {
    /// The claim is the caller's; the number names its open transaction.
    StartProcessing(u64),
    /// The command has been completed before; this is its response.
    ReturnSavedResponse(ResponseView),
    /// Another request holds the claim and has not finished.
    InProgress,
}

/// What a worker is handed when it locks a queue row.
pub struct TaskView {
    pub issue_id: u64,
    pub recipient: Seq<char>,
    pub attempts: u32,
}

/// How one delivery attempt ended.
#[derive(Copy, Clone, Debug, PartialEq, Eq, Structural)]
pub enum DeliveryOutcome {
    /// The email was sent.
    Delivered,
    /// The attempt failed in a way that may pass: a timeout, a 5xx.
    TransientFailure,
    /// The attempt failed in a way that never will pass: a malformed address.
    PermanentFailure,
}

/// What becomes of a queue row after an attempt.
#[derive(Copy, Clone, Debug, PartialEq, Eq, Structural)]
pub enum Disposition {
    /// The row is deleted: its email was sent.
    Delete,
    /// The row stays pending, with one more attempt counted.
    Retry,
    /// The row is marked failed and never tried again.
    Fail,
}

/// What becomes of a row that has failed `attempts` times before, after an
/// attempt that ended in `outcome`.
pub open spec fn disposition_of(attempts: u32, outcome: DeliveryOutcome) -> Disposition {
    match outcome {
        DeliveryOutcome::Delivered => Disposition::Delete,
        DeliveryOutcome::PermanentFailure => Disposition::Fail,
        DeliveryOutcome::TransientFailure => if attempts + 1 >= MAX_DELIVERY_ATTEMPTS {
            Disposition::Fail
        } else {
            Disposition::Retry
        },
    }
}

/// The email addresses of the confirmed subscribers among `subscribers`, in
/// table order.
pub open spec fn confirmed_emails(subscribers: Seq<SubscriberView>) -> Seq<Seq<char>>
    decreases subscribers.len(),
{
    if subscribers.len() == 0 {
        Seq::empty()
    } else {
        let earlier = confirmed_emails(subscribers.drop_last());
        if subscribers.last().status == SubscriptionStatus::Confirmed {
            earlier.push(subscribers.last().email)
        } else {
            earlier
        }
    }
}

/// One fresh queue row per recipient, all for the same issue.
pub open spec fn fan_out(issue_id: u64, recipients: Seq<Seq<char>>) -> Seq<QueueRowView> {
    Seq::new(
        recipients.len(),
        |i: int|
            QueueRowView {
                issue_id,
                recipient: recipients[i],
                attempts: 0,
                state: DeliveryState::Pending,
                locked: false,
            },
    )
}

/// Whether a worker may take `row`: it is pending and no worker holds it.
pub open spec fn is_available(row: QueueRowView) -> bool {
    row.state == DeliveryState::Pending && !row.locked
}

/// Whether `row` is settled if it has failed: a failed row is held by no
/// worker.
pub open spec fn is_settled(row: QueueRowView) -> bool {
    row.state == DeliveryState::Failed ==> !row.locked
}

/// Whether two queue rows owe the same issue to the same recipient.
pub open spec fn same_delivery(a: QueueRowView, b: QueueRowView) -> bool {
    a.issue_id == b.issue_id && a.recipient == b.recipient
}

/// Whether `rows` is a fan-out of the issue numbered `issue_id`: every row
/// is for that issue, none is held by a worker after failing, and no
/// recipient has two.
pub open spec fn is_fan_out_of(rows: Seq<QueueRowView>, issue_id: u64) -> bool {
    &&& forall|k: int|
        0 <= k < rows.len() ==> (#[trigger] rows[k]).issue_id == issue_id && is_settled(rows[k])
    &&& forall|k: int, l: int|
        0 <= k < l < rows.len() ==> (#[trigger] rows[k]).recipient != (#[trigger] rows[l]).recipient
}

/// Whether an open transaction is in order: it has written nothing, or one
/// issue, numbered below `next_issue` and published by the command that
/// holds the claim, together with that issue's fan-out.
pub open spec fn is_transaction_in_order(transaction: TransactionView, next_issue: u64) -> bool {
    match transaction.issue {
        None => transaction.deliveries.len() == 0,
        Some(issue) => issue.id < next_issue && issue.command == transaction.claim
            && is_fan_out_of(transaction.deliveries, issue.id),
    }
}

/// Whether `row` is the row a worker holds for `task`.
pub open spec fn is_held_for(row: QueueRowView, task: TaskView) -> bool {
    row.locked && row.issue_id == task.issue_id && row.recipient == task.recipient
}

/// The whole store at one instant.
pub struct StoreView {
    pub subscribers: Seq<SubscriberView>,
    pub tokens: Seq<TokenView>,
    /// The responses of completed commands.
    pub saved: Map<ClaimKey, ResponseView>,
    /// The open transactions, by number. Each holds one claim.
    pub open: Map<u64, TransactionView>,
    pub issues: Seq<IssueView>,
    pub queue: Seq<QueueRowView>,
    pub next_transaction: u64,
    pub next_issue: u64,
}

impl StoreView {
    /// The store with nothing in it.
    pub open spec fn empty() -> StoreView {
        StoreView {
            subscribers: Seq::empty(),
            tokens: Seq::empty(),
            saved: Map::empty(),
            open: Map::empty(),
            issues: Seq::empty(),
            queue: Seq::empty(),
            next_transaction: 0,
            next_issue: 0,
        }
    }

    /// Whether some committed issue is numbered `id`.
    pub open spec fn has_issue(self, id: u64) -> bool {
        exists|i: int| 0 <= i < self.issues.len() && (#[trigger] self.issues[i]).id == id
    }

    /// What holds of the committed issues: their numbers are below the next
    /// to be given out and no two are the same; each was published by a
    /// completed command, and no command has published two.
    pub open spec fn issues_in_order(self) -> bool {
        &&& forall|i: int|
            0 <= i < self.issues.len() ==> (#[trigger] self.issues[i]).id < self.next_issue
        &&& forall|i: int, j: int|
            0 <= i < j < self.issues.len() ==> (#[trigger] self.issues[i]).id != (
            #[trigger] self.issues[j]).id
        &&& forall|i: int|
            0 <= i < self.issues.len() ==> self.saved.contains_key(
                (#[trigger] self.issues[i]).command,
            )
        &&& forall|i: int, j: int|
            0 <= i < j < self.issues.len() ==> (#[trigger] self.issues[i]).command != (
            #[trigger] self.issues[j]).command
    }

    /// What holds of what the open transactions have written: each is in
    /// order, and the number of an issue not yet committed is the number of
    /// no other issue, committed or not.
    pub open spec fn writes_in_order(self) -> bool {
        &&& forall|id: u64| #[trigger]
            self.open.contains_key(id) ==> is_transaction_in_order(self.open[id], self.next_issue)
        &&& forall|id: u64, i: int|
            self.open.contains_key(id) && (#[trigger] self.open[id]).issue is Some && 0 <= i
                < self.issues.len() ==> (#[trigger] self.issues[i]).id != self.open[id].issue->0.id
        &&& forall|a: u64, b: u64|
            self.open.contains_key(a) && self.open.contains_key(b) && a != b && (
            #[trigger] self.open[a]).issue is Some && (#[trigger] self.open[b]).issue is Some
                ==> self.open[a].issue->0.id != self.open[b].issue->0.id
    }

    /// What holds of the queue: no worker holds a failed row, every row is
    /// for a committed issue, and no issue is owed twice to one recipient.
    pub open spec fn queue_in_order(self) -> bool {
        &&& forall|i: int| 0 <= i < self.queue.len() ==> is_settled(#[trigger] self.queue[i])
        &&& forall|i: int|
            0 <= i < self.queue.len() ==> self.has_issue((#[trigger] self.queue[i]).issue_id)
        &&& forall|i: int, j: int|
            0 <= i < j < self.queue.len() ==> !same_delivery(
                #[trigger] self.queue[i],
                #[trigger] self.queue[j],
            )
    }

    /// What the store guarantees at every instant: transaction numbers are
    /// never reused, no two open transactions hold the same claim, no claim
    /// is open on a completed command, no two subscribers share an email
    /// address, and issues, uncommitted writes and queue are each in order.
    /// In particular a command has at most one issue and one fan-out.
    pub open spec fn wf(self) -> bool {
        &&& forall|id: u64| #[trigger] self.open.contains_key(id) ==> id < self.next_transaction
        &&& forall|a: u64, b: u64|
            #![trigger self.open[a], self.open[b]]
            self.open.contains_key(a) && self.open.contains_key(b) && a != b ==> self.open[a].claim
                != self.open[b].claim
        &&& forall|id: u64| #[trigger]
            self.open.contains_key(id) ==> !self.saved.contains_key(self.open[id].claim)
        &&& forall|i: int, j: int|
            #![trigger self.subscribers[i], self.subscribers[j]]
            0 <= i < j < self.subscribers.len() ==> self.subscribers[i].email
                != self.subscribers[j].email
        &&& self.issues_in_order()
        &&& self.writes_in_order()
        &&& self.queue_in_order()
    }

    /// Whether the open transaction `id` holds `claim`.
    pub open spec fn holds(self, id: u64, claim: ClaimKey) -> bool {
        self.open.contains_key(id) && self.open[id].claim == claim
    }

    /// The open transaction that holds `claim`, if there is one.
    pub open spec fn holder(self, claim: ClaimKey) -> Option<u64> {
        if exists|id: u64| self.holds(id, claim) {
            Some(choose|id: u64| self.holds(id, claim))
        } else {
            None
        }
    }

    /// Whether some subscriber has the address `email`.
    pub open spec fn has_email(self, email: Seq<char>) -> bool {
        exists|i: int| 0 <= i < self.subscribers.len() && #[trigger] self.subscribers[i].email == email
    }

    /// Records a new subscriber, not yet confirmed. Refused when the address
    /// is already taken.
    pub open spec fn insert_subscriber(
        self,
        id: u128,
        email: Seq<char>,
        name: Seq<char>,
        now: u64,
    ) -> (StoreView, Result<(), StoreError>) {
        if self.has_email(email) {
            (self, Err(StoreError::DuplicateEmail))
        } else {
            (
                StoreView {
                    subscribers: self.subscribers.push(
                        SubscriberView {
                            id,
                            email,
                            name,
                            subscribed_at: now,
                            status: SubscriptionStatus::PendingConfirmation,
                        },
                    ),
                    ..self
                },
                Ok(()),
            )
        }
    }

    /// Records the confirmation token handed to a subscriber.
    pub open spec fn store_token(self, subscriber_id: u128, token: Seq<char>) -> StoreView {
        StoreView { tokens: self.tokens.push(TokenView { token, subscriber_id }), ..self }
    }

    /// Whether `i` is the first row of the tokens table that holds `token`.
    pub open spec fn is_first_token(self, token: Seq<char>, i: int) -> bool {
        &&& 0 <= i < self.tokens.len()
        &&& self.tokens[i].token == token
        &&& forall|j: int| 0 <= j < i ==> (#[trigger] self.tokens[j]).token != token
    }

    /// The subscriber that `token` was first handed to, if any.
    pub open spec fn subscriber_id_from_token(self, token: Seq<char>) -> Option<u128> {
        if exists|i: int| self.is_first_token(token, i) {
            Some(self.tokens[choose|i: int| self.is_first_token(token, i)].subscriber_id)
        } else {
            None
        }
    }

    /// Marks every subscriber numbered `id` as confirmed.
    pub open spec fn confirm_subscriber(self, id: u128) -> StoreView {
        StoreView {
            subscribers: Seq::new(
                self.subscribers.len(),
                |i: int|
                    if self.subscribers[i].id == id {
                        SubscriberView {
                            status: SubscriptionStatus::Confirmed,
                            ..self.subscribers[i]
                        }
                    } else {
                        self.subscribers[i]
                    },
            ),
            ..self
        }
    }

    /// The store after a new transaction has been opened on `claim`.
    pub open spec fn with_claim(self, claim: ClaimKey, now: u64) -> StoreView {
        StoreView {
            open: self.open.insert(
                self.next_transaction,
                TransactionView {
                    claim,
                    claimed_at: now,
                    issue: None,
                    deliveries: Seq::empty(),
                },
            ),
            next_transaction: (self.next_transaction + 1) as u64,
            ..self
        }
    }

    /// The store after transaction `id` has been rolled back: the claim is
    /// free again and nothing the transaction wrote remains.
    pub open spec fn abort(self, id: u64) -> StoreView {
        StoreView { open: self.open.remove(id), ..self }
    }

    /// A request for `claim` at time `now`.
    ///
    /// A completed command is answered with its saved response and nothing
    /// changes. A free claim is given to the caller in a new transaction. A
    /// claim held by another transaction is refused while that transaction
    /// is within its lifetime; past it, that transaction is rolled back and
    /// the claim given to the caller.
    pub open spec fn begin(self, claim: ClaimKey, now: u64) -> (
        StoreView,
        Result<ClaimView, StoreError>,
    ) {
        if self.saved.contains_key(claim) {
            (self, Ok(ClaimView::ReturnSavedResponse(self.saved[claim])))
        } else if self.holder(claim) is Some && !claim_expired(
            self.open[self.holder(claim)->0].claimed_at,
            now,
        ) {
            (self, Ok(ClaimView::InProgress))
        } else if self.next_transaction == u64::MAX {
            (self, Err(StoreError::Exhausted))
        } else {
            let freed = match self.holder(claim) {
                Some(stale) => self.abort(stale),
                None => self,
            };
            (freed.with_claim(claim, now), Ok(ClaimView::StartProcessing(self.next_transaction)))
        }
    }

    /// Commits transaction `id` with `response` as the command's outcome:
    /// the response is saved under the claim, and the issue and queue rows
    /// the transaction wrote become visible, all at once.
    pub open spec fn complete(self, id: u64, response: ResponseView) -> (
        StoreView,
        Result<(), StoreError>,
    ) {
        if self.open.contains_key(id) {
            let transaction = self.open[id];
            (
                StoreView {
                    saved: self.saved.insert(transaction.claim, response),
                    open: self.open.remove(id),
                    issues: match transaction.issue {
                        Some(issue) => self.issues.push(issue),
                        None => self.issues,
                    },
                    queue: self.queue + transaction.deliveries,
                    ..self
                },
                Ok(()),
            )
        } else {
            (self, Err(StoreError::NoSuchTransaction))
        }
    }

    /// Writes one issue and its fan-out inside transaction `id`: one queue
    /// row for every subscriber who is confirmed at this instant. A
    /// transaction writes one issue and no more.
    pub open spec fn enqueue(
        self,
        id: u64,
        title: Seq<char>,
        text_body: Seq<char>,
        html_body: Seq<char>,
        now: u64,
    ) -> (StoreView, Result<u64, StoreError>) {
        if !self.open.contains_key(id) {
            (self, Err(StoreError::NoSuchTransaction))
        } else if self.open[id].issue is Some {
            (self, Err(StoreError::AlreadyEnqueued))
        } else if self.next_issue == u64::MAX {
            (self, Err(StoreError::Exhausted))
        } else {
            let transaction = self.open[id];
            let issue = IssueView {
                id: self.next_issue,
                command: transaction.claim,
                title,
                text_body,
                html_body,
                created_at: now,
            };
            let written = TransactionView {
                issue: Some(issue),
                deliveries: fan_out(self.next_issue, confirmed_emails(self.subscribers)),
                ..transaction
            };
            (
                StoreView {
                    open: self.open.insert(id, written),
                    next_issue: (self.next_issue + 1) as u64,
                    ..self
                },
                Ok(self.next_issue),
            )
        }
    }

    /// Whether `i` is the first queue row a worker may take.
    pub open spec fn is_next_available(self, i: int) -> bool {
        &&& 0 <= i < self.queue.len()
        &&& is_available(self.queue[i])
        &&& forall|j: int| 0 <= j < i ==> !is_available(#[trigger] self.queue[j])
    }

    /// A worker asks for work: the first available row is locked and handed
    /// over. With no available row nothing changes.
    pub open spec fn next_task(self) -> (StoreView, Option<TaskView>) {
        if exists|i: int| self.is_next_available(i) {
            let i = choose|i: int| self.is_next_available(i);
            let row = self.queue[i];
            (
                StoreView {
                    queue: self.queue.update(i, QueueRowView { locked: true, ..row }),
                    ..self
                },
                Some(
                    TaskView {
                        issue_id: row.issue_id,
                        recipient: row.recipient,
                        attempts: row.attempts,
                    },
                ),
            )
        } else {
            (self, None)
        }
    }

    /// Whether `i` is the first queue row held for `task`.
    pub open spec fn is_first_held(self, task: TaskView, i: int) -> bool {
        &&& 0 <= i < self.queue.len()
        &&& is_held_for(self.queue[i], task)
        &&& forall|j: int| 0 <= j < i ==> !is_held_for(#[trigger] self.queue[j], task)
    }

    /// A worker reports how its attempt at `task` ended. The row it holds is
    /// deleted after a delivery, marked failed after a permanent failure or
    /// the last allowed transient one, and otherwise released with one more
    /// attempt counted. If no row is held for the task nothing changes.
    pub open spec fn finish_task(self, task: TaskView, outcome: DeliveryOutcome) -> StoreView {
        if exists|i: int| self.is_first_held(task, i) {
            let i = choose|i: int| self.is_first_held(task, i);
            let row = self.queue[i];
            match disposition_of(row.attempts, outcome) {
                Disposition::Delete => StoreView { queue: self.queue.remove(i), ..self },
                Disposition::Retry => StoreView {
                    queue: self.queue.update(
                        i,
                        QueueRowView {
                            attempts: (row.attempts + 1) as u32,
                            locked: false,
                            ..row
                        },
                    ),
                    ..self
                },
                Disposition::Fail => StoreView {
                    queue: self.queue.update(
                        i,
                        QueueRowView { state: DeliveryState::Failed, locked: false, ..row },
                    ),
                    ..self
                },
            }
        } else {
            self
        }
    }

    /// A worker gives `task` up without having tried: the row it holds is
    /// released as it was, for another worker to take. If no row is held
    /// for the task nothing changes.
    pub open spec fn release_task(self, task: TaskView) -> StoreView {
        if exists|i: int| self.is_first_held(task, i) {
            let i = choose|i: int| self.is_first_held(task, i);
            StoreView {
                queue: self.queue.update(i, QueueRowView { locked: false, ..self.queue[i] }),
                ..self
            }
        } else {
            self
        }
    }

    /// What became of the row held for `task` when its attempt ended in
    /// `outcome`, or `None` if no row is held for the task.
    pub open spec fn settlement(self, task: TaskView, outcome: DeliveryOutcome) -> Option<
        Disposition,
    > {
        if exists|i: int| self.is_first_held(task, i) {
            Some(
                disposition_of(
                    self.queue[choose|i: int| self.is_first_held(task, i)].attempts,
                    outcome,
                ),
            )
        } else {
            None
        }
    }

    /// Whether `i` is the first row of the issues table numbered `id`.
    pub open spec fn is_first_issue(self, id: u64, i: int) -> bool {
        &&& 0 <= i < self.issues.len()
        &&& self.issues[i].id == id
        &&& forall|j: int| 0 <= j < i ==> (#[trigger] self.issues[j]).id != id
    }

    /// The first issue numbered `id`, if any.
    pub open spec fn issue(self, id: u64) -> Option<IssueView> {
        if exists|i: int| self.is_first_issue(id, i) {
            Some(self.issues[choose|i: int| self.is_first_issue(id, i)])
        } else {
            None
        }
    }
}

} // verus!
