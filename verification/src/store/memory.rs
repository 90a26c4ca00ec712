//! The store kept in memory. Every operation is atomic and does to the
//! store's view exactly what the model says.

use crate::authentication::middleware::UserId;
use crate::idempotency::key::IdempotencyKey;
use crate::idempotency::persistence::NextAction;
use crate::response::{HttpResponse, ResponseView};
use crate::store::model::{
    confirmed_emails, fan_out, is_available, is_held_for, ClaimKey, ClaimView, DeliveryOutcome,
    DeliveryState, Disposition, IssueView, QueueRowView, StoreError, StoreView, SubscriberView,
    SubscriptionStatus, TaskView, TokenView, TransactionView, MAX_CLAIM_LIFETIME_SECS,
};
use crate::store::preservation::{
    lemma_abort_wf, lemma_begin_wf, lemma_complete_wf, lemma_confirm_subscriber_wf,
    lemma_enqueue_wf, lemma_finish_task_wf, lemma_holder_is_unique, lemma_insert_subscriber_wf,
    lemma_next_task_wf, lemma_release_task_wf, lemma_store_token_wf,
};
use vstd::prelude::*;
use vstd::string::*;

verus! {

/// One subscriber, as the store hands it out.
#[derive(Debug)]
pub struct Subscriber {
    pub id: u128,
    pub email: String,
    pub name: String,
    pub subscribed_at: u64,
    pub status: SubscriptionStatus,
}

impl View for Subscriber {
    type V = SubscriberView;

    open spec fn view(&self) -> SubscriberView {
        SubscriberView {
            id: self.id,
            email: self.email@,
            name: self.name@,
            subscribed_at: self.subscribed_at,
            status: self.status,
        }
    }
}

/// One newsletter issue, as the store hands it out, with the actor and
/// the idempotency key of the command that published it.
#[derive(Debug)]
pub struct Issue {
    pub id: u64,
    pub actor: UserId,
    pub idempotency_key: String,
    pub title: String,
    pub text_body: String,
    pub html_body: String,
    pub created_at: u64,
}

impl View for Issue {
    type V = IssueView;

    open spec fn view(&self) -> IssueView {
        IssueView {
            id: self.id,
            command: ClaimKey { actor: self.actor, key: self.idempotency_key@ },
            title: self.title@,
            text_body: self.text_body@,
            html_body: self.html_body@,
            created_at: self.created_at,
        }
    }
}

impl Clone for Issue {
    fn clone(&self) -> (copy: Self)
        ensures
            copy@ == self@,
    {
        Issue {
            id: self.id,
            actor: self.actor,
            idempotency_key: self.idempotency_key.clone(),
            title: self.title.clone(),
            text_body: self.text_body.clone(),
            html_body: self.html_body.clone(),
            created_at: self.created_at,
        }
    }
}

/// One delivery owed, handed to a worker together with the lock on its
/// queue row.
#[derive(Debug)]
pub struct Task {
    pub issue_id: u64,
    pub recipient: String,
    pub attempts: u32,
}

impl View for Task {
    type V = TaskView;

    open spec fn view(&self) -> TaskView {
        TaskView { issue_id: self.issue_id, recipient: self.recipient@, attempts: self.attempts }
    }
}

/// The handle of an open transaction. Whoever has it holds the claim the
/// transaction was opened on, until the transaction ends or outlives its
/// lifetime.
#[derive(Debug)]
pub struct Transaction {
    id: u64,
}

impl View for Transaction {
    type V = u64;

    closed spec fn view(&self) -> u64 {
        self.id
    }
}

impl View for NextAction<Transaction> {
    type V = ClaimView;

    open spec fn view(&self) -> ClaimView {
        match self {
            NextAction::StartProcessing(transaction) => ClaimView::StartProcessing(transaction@),
            NextAction::ReturnSavedResponse(response) => ClaimView::ReturnSavedResponse(response@),
            NextAction::InProgress => ClaimView::InProgress,
        }
    }
}

/// The claim of `actor` on the key with text `key`.
pub open spec fn claim_of(actor: UserId, key: Seq<char>) -> ClaimKey {
    ClaimKey { actor, key }
}

/// One row of the subscription tokens table.
struct SubscriptionToken {
    token: String,
    subscriber_id: u128,
}

/// One row of the delivery queue, as the store hands it out.
#[derive(Debug)]
pub struct QueueRow {
    pub issue_id: u64,
    pub recipient: String,
    pub attempts: u32,
    pub state: DeliveryState,
    pub locked: bool,
}

impl View for QueueRow {
    type V = QueueRowView;

    open spec fn view(&self) -> QueueRowView {
        QueueRowView {
            issue_id: self.issue_id,
            recipient: self.recipient@,
            attempts: self.attempts,
            state: self.state,
            locked: self.locked,
        }
    }
}

impl Clone for QueueRow {
    fn clone(&self) -> (copy: Self)
        ensures
            copy@ == self@,
    {
        QueueRow {
            issue_id: self.issue_id,
            recipient: self.recipient.clone(),
            attempts: self.attempts,
            state: self.state,
            locked: self.locked,
        }
    }
}

impl Clone for Subscriber {
    fn clone(&self) -> (copy: Self)
        ensures
            copy@ == self@,
    {
        Subscriber {
            id: self.id,
            email: self.email.clone(),
            name: self.name.clone(),
            subscribed_at: self.subscribed_at,
            status: self.status,
        }
    }
}

/// One completed command: its claim and the response saved for it.
struct SavedRow {
    actor: UserId,
    key: String,
    response: HttpResponse,
}

/// One open transaction: its number, the claim it holds, and what it has
/// written so far.
struct OpenTransaction {
    id: u64,
    actor: UserId,
    key: String,
    claimed_at: u64,
    issue: Option<Issue>,
    deliveries: Vec<QueueRow>,
}

/// The views of a list of subscribers, in order.
pub open spec fn subscriber_views(rows: Seq<Subscriber>) -> Seq<SubscriberView> {
    Seq::new(rows.len(), |i: int| rows[i]@)
}

/// The view of a token row.
spec fn token_view(row: SubscriptionToken) -> TokenView {
    TokenView { token: row.token@, subscriber_id: row.subscriber_id }
}

/// The views of a list of token rows, in order.
spec fn token_views(rows: Seq<SubscriptionToken>) -> Seq<TokenView> {
    Seq::new(rows.len(), |i: int| token_view(rows[i]))
}

/// The views of a list of issues, in order.
pub open spec fn issue_views(rows: Seq<Issue>) -> Seq<IssueView> {
    Seq::new(rows.len(), |i: int| rows[i]@)
}

/// The views of a list of queue rows, in order.
pub open spec fn queue_views(rows: Seq<QueueRow>) -> Seq<QueueRowView> {
    Seq::new(rows.len(), |i: int| rows[i]@)
}

/// The texts of a list of strings, in order.
pub open spec fn text_views(texts: Seq<String>) -> Seq<Seq<char>> {
    Seq::new(texts.len(), |i: int| texts[i]@)
}

/// The claim a saved row is kept under.
spec fn saved_claim(row: SavedRow) -> ClaimKey {
    ClaimKey { actor: row.actor, key: row.key@ }
}

/// Whether row `i` is kept under `claim`.
spec fn has_saved(rows: Seq<SavedRow>, claim: ClaimKey, i: int) -> bool {
    0 <= i < rows.len() && saved_claim(rows[i]) == claim
}

/// The saved rows as a map from claims to responses.
spec fn saved_map(rows: Seq<SavedRow>) -> Map<ClaimKey, ResponseView> {
    Map::new(
        |claim: ClaimKey| exists|i: int| has_saved(rows, claim, i),
        |claim: ClaimKey| rows[choose|i: int| has_saved(rows, claim, i)].response@,
    )
}

/// Whether no two saved rows are kept under the same claim.
spec fn saved_distinct(rows: Seq<SavedRow>) -> bool {
    forall|i: int, j: int|
        0 <= i < j < rows.len() ==> saved_claim(#[trigger] rows[i]) != saved_claim(
            #[trigger] rows[j],
        )
}

/// The view of an open transaction.
spec fn transaction_view(row: OpenTransaction) -> TransactionView {
    TransactionView {
        claim: ClaimKey { actor: row.actor, key: row.key@ },
        claimed_at: row.claimed_at,
        issue: match row.issue {
            Some(issue) => Some(issue@),
            None => None,
        },
        deliveries: queue_views(row.deliveries@),
    }
}

/// Whether row `i` is the transaction numbered `id`.
spec fn has_open(rows: Seq<OpenTransaction>, id: u64, i: int) -> bool {
    0 <= i < rows.len() && rows[i].id == id
}

/// The open transactions as a map from their numbers.
spec fn open_map(rows: Seq<OpenTransaction>) -> Map<u64, TransactionView> {
    Map::new(
        |id: u64| exists|i: int| has_open(rows, id, i),
        |id: u64| transaction_view(rows[choose|i: int| has_open(rows, id, i)]),
    )
}

/// Whether no two open transactions have the same number.
spec fn open_distinct(rows: Seq<OpenTransaction>) -> bool {
    forall|i: int, j: int|
        0 <= i < j < rows.len() ==> (#[trigger] rows[i]).id != (#[trigger] rows[j]).id
}

/// A saved row is found in the map under its claim.
proof fn lemma_saved_lookup(rows: Seq<SavedRow>, i: int)
    requires
        saved_distinct(rows),
        0 <= i < rows.len(),
    ensures
        saved_map(rows).contains_key(saved_claim(rows[i])),
        saved_map(rows)[saved_claim(rows[i])] == rows[i].response@,
{
    let claim = saved_claim(rows[i]);
    assert(has_saved(rows, claim, i));
    let chosen = choose|j: int| has_saved(rows, claim, j);
    assert(has_saved(rows, claim, chosen));
    if chosen < i {
        assert(saved_claim(rows[chosen]) != saved_claim(rows[i]));
    } else if i < chosen {
        assert(saved_claim(rows[i]) != saved_claim(rows[chosen]));
    }
}

/// Appending a row under a new claim inserts it into the map.
proof fn lemma_saved_push(rows: Seq<SavedRow>, row: SavedRow)
    requires
        saved_distinct(rows),
        !saved_map(rows).contains_key(saved_claim(row)),
    ensures
        saved_distinct(rows.push(row)),
        saved_map(rows.push(row)) == saved_map(rows).insert(saved_claim(row), row.response@),
{
    let after = rows.push(row);
    assert forall|i: int, j: int| 0 <= i < j < after.len() implies saved_claim(
        #[trigger] after[i],
    ) != saved_claim(#[trigger] after[j]) by {
        if j == rows.len() {
            if saved_claim(rows[i]) == saved_claim(row) {
                assert(has_saved(rows, saved_claim(row), i));
            }
        } else {
            assert(saved_claim(rows[i]) != saved_claim(rows[j]));
        }
    }
    let expected = saved_map(rows).insert(saved_claim(row), row.response@);
    assert forall|claim: ClaimKey| saved_map(after).contains_key(claim) == expected.contains_key(
        claim,
    ) by {
        if saved_map(after).contains_key(claim) {
            let i = choose|i: int| has_saved(after, claim, i);
            if i < rows.len() {
                assert(has_saved(rows, claim, i));
            }
        }
        if expected.contains_key(claim) {
            if claim == saved_claim(row) {
                assert(has_saved(after, claim, rows.len() as int));
            } else {
                let i = choose|i: int| has_saved(rows, claim, i);
                assert(has_saved(after, claim, i));
            }
        }
    }
    assert forall|claim: ClaimKey| saved_map(after).contains_key(claim) implies saved_map(
        after,
    )[claim] == expected[claim] by {
        let i = choose|i: int| has_saved(after, claim, i);
        assert(has_saved(after, claim, i));
        lemma_saved_lookup(after, i);
        if i < rows.len() {
            lemma_saved_lookup(rows, i);
        }
    }
    assert(saved_map(after) =~= expected);
}

/// An open transaction is found in the map under its number.
proof fn lemma_open_lookup(rows: Seq<OpenTransaction>, i: int)
    requires
        open_distinct(rows),
        0 <= i < rows.len(),
    ensures
        open_map(rows).contains_key(rows[i].id),
        open_map(rows)[rows[i].id] == transaction_view(rows[i]),
{
    let id = rows[i].id;
    assert(has_open(rows, id, i));
    let chosen = choose|j: int| has_open(rows, id, j);
    assert(has_open(rows, id, chosen));
    if chosen < i {
        assert(rows[chosen].id != rows[i].id);
    } else if i < chosen {
        assert(rows[i].id != rows[chosen].id);
    }
}

/// A number that no row has is not in the map.
proof fn lemma_open_missing(rows: Seq<OpenTransaction>, id: u64)
    requires
        forall|i: int| 0 <= i < rows.len() ==> (#[trigger] rows[i]).id != id,
    ensures
        !open_map(rows).contains_key(id),
{
    if open_map(rows).contains_key(id) {
        let i = choose|i: int| has_open(rows, id, i);
        assert(has_open(rows, id, i));
        assert(rows[i].id != id);
    }
}

/// Appending a transaction with a new number inserts it into the map.
proof fn lemma_open_push(rows: Seq<OpenTransaction>, row: OpenTransaction)
    requires
        open_distinct(rows),
        !open_map(rows).contains_key(row.id),
    ensures
        open_distinct(rows.push(row)),
        open_map(rows.push(row)) == open_map(rows).insert(row.id, transaction_view(row)),
{
    let after = rows.push(row);
    assert forall|i: int, j: int| 0 <= i < j < after.len() implies (#[trigger] after[i]).id != (
    #[trigger] after[j]).id by {
        if j == rows.len() {
            if rows[i].id == row.id {
                assert(has_open(rows, row.id, i));
            }
        } else {
            assert(rows[i].id != rows[j].id);
        }
    }
    let expected = open_map(rows).insert(row.id, transaction_view(row));
    assert forall|id: u64| open_map(after).contains_key(id) == expected.contains_key(id) by {
        if open_map(after).contains_key(id) {
            let i = choose|i: int| has_open(after, id, i);
            if i < rows.len() {
                assert(has_open(rows, id, i));
            }
        }
        if expected.contains_key(id) {
            if id == row.id {
                assert(has_open(after, id, rows.len() as int));
            } else {
                let i = choose|i: int| has_open(rows, id, i);
                assert(has_open(after, id, i));
            }
        }
    }
    assert forall|id: u64| open_map(after).contains_key(id) implies open_map(after)[id]
        == expected[id] by {
        let i = choose|i: int| has_open(after, id, i);
        assert(has_open(after, id, i));
        lemma_open_lookup(after, i);
        if i < rows.len() {
            lemma_open_lookup(rows, i);
        }
    }
    assert(open_map(after) =~= expected);
}

/// Removing a row removes its transaction from the map.
proof fn lemma_open_remove(rows: Seq<OpenTransaction>, at: int)
    requires
        open_distinct(rows),
        0 <= at < rows.len(),
    ensures
        open_distinct(rows.remove(at)),
        open_map(rows.remove(at)) == open_map(rows).remove(rows[at].id),
{
    let after = rows.remove(at);
    let gone = rows[at].id;
    assert forall|i: int, j: int| 0 <= i < j < after.len() implies (#[trigger] after[i]).id != (
    #[trigger] after[j]).id by {
        let oi = if i < at { i } else { i + 1 };
        let oj = if j < at { j } else { j + 1 };
        assert(rows[oi].id != rows[oj].id);
    }
    let expected = open_map(rows).remove(gone);
    assert forall|id: u64| open_map(after).contains_key(id) == expected.contains_key(id) by {
        if open_map(after).contains_key(id) {
            let i = choose|i: int| has_open(after, id, i);
            let oi = if i < at { i } else { i + 1 };
            assert(has_open(rows, id, oi));
            if oi < at {
                assert(rows[oi].id != rows[at].id);
            } else {
                assert(rows[at].id != rows[oi].id);
            }
        }
        if expected.contains_key(id) {
            let oi = choose|i: int| has_open(rows, id, i);
            assert(has_open(rows, id, oi));
            let i = if oi < at { oi } else { oi - 1 };
            assert(has_open(after, id, i));
        }
    }
    assert forall|id: u64| open_map(after).contains_key(id) implies open_map(after)[id]
        == expected[id] by {
        let i = choose|i: int| has_open(after, id, i);
        assert(has_open(after, id, i));
        lemma_open_lookup(after, i);
        let oi = if i < at { i } else { i + 1 };
        lemma_open_lookup(rows, oi);
    }
    assert(open_map(after) =~= expected);
}

/// Replacing a row by one with the same number replaces its transaction
/// in the map.
proof fn lemma_open_update(rows: Seq<OpenTransaction>, at: int, row: OpenTransaction)
    requires
        open_distinct(rows),
        0 <= at < rows.len(),
        row.id == rows[at].id,
    ensures
        open_distinct(rows.update(at, row)),
        open_map(rows.update(at, row)) == open_map(rows).insert(row.id, transaction_view(row)),
{
    let after = rows.update(at, row);
    assert forall|i: int, j: int| 0 <= i < j < after.len() implies (#[trigger] after[i]).id != (
    #[trigger] after[j]).id by {
        assert(rows[i].id != rows[j].id);
    }
    let expected = open_map(rows).insert(row.id, transaction_view(row));
    assert forall|id: u64| open_map(after).contains_key(id) == expected.contains_key(id) by {
        if open_map(after).contains_key(id) {
            let i = choose|i: int| has_open(after, id, i);
            assert(has_open(rows, id, i));
        }
        if expected.contains_key(id) {
            if id == row.id {
                assert(has_open(after, id, at));
            } else {
                let i = choose|i: int| has_open(rows, id, i);
                assert(has_open(after, id, i));
            }
        }
    }
    assert forall|id: u64| open_map(after).contains_key(id) implies open_map(after)[id]
        == expected[id] by {
        let i = choose|i: int| has_open(after, id, i);
        assert(has_open(after, id, i));
        lemma_open_lookup(after, i);
        lemma_open_lookup(rows, i);
    }
    assert(open_map(after) =~= expected);
}

/// The store, held in memory.
pub struct Store {
    subscribers: Vec<Subscriber>,
    tokens: Vec<SubscriptionToken>,
    saved: Vec<SavedRow>,
    open: Vec<OpenTransaction>,
    issues: Vec<Issue>,
    queue: Vec<QueueRow>,
    next_transaction: u64,
    next_issue: u64,
}

impl View for Store {
    type V = StoreView;

    closed spec fn view(&self) -> StoreView {
        StoreView {
            subscribers: subscriber_views(self.subscribers@),
            tokens: token_views(self.tokens@),
            saved: saved_map(self.saved@),
            open: open_map(self.open@),
            issues: issue_views(self.issues@),
            queue: queue_views(self.queue@),
            next_transaction: self.next_transaction,
            next_issue: self.next_issue,
        }
    }
}

impl Store {
    /// Whether the store is in order: its view is well formed, and its
    /// tables hold no key twice.
    pub closed spec fn wf(&self) -> bool {
        &&& self@.wf()
        &&& saved_distinct(self.saved@)
        &&& open_distinct(self.open@)
    }

    /// A well-formed store's view is well formed.
    pub proof fn lemma_view_wf(&self)
        requires
            self.wf(),
        ensures
            self@.wf(),
    {
    }

    /// A store with nothing in it.
    pub fn new() -> (store: Store)
        ensures
            store.wf(),
            store@ == StoreView::empty(),
    {
        let store = Store {
            subscribers: Vec::new(),
            tokens: Vec::new(),
            saved: Vec::new(),
            open: Vec::new(),
            issues: Vec::new(),
            queue: Vec::new(),
            next_transaction: 0,
            next_issue: 0,
        };
        proof {
            assert(store@.subscribers =~= Seq::empty());
            assert(store@.tokens =~= Seq::empty());
            assert(store@.issues =~= Seq::empty());
            assert(store@.queue =~= Seq::empty());
            assert(store@.saved =~= Map::empty()) by {
                assert forall|claim: ClaimKey| !saved_map(store.saved@).contains_key(claim) by {
                    if saved_map(store.saved@).contains_key(claim) {
                        let i = choose|i: int| has_saved(store.saved@, claim, i);
                        assert(has_saved(store.saved@, claim, i));
                    }
                }
            }
            assert(store@.open =~= Map::empty()) by {
                assert forall|id: u64| !open_map(store.open@).contains_key(id) by {
                    lemma_open_missing(store.open@, id);
                }
            }
        }
        store
    }

    /// The row of the saved table that holds `claim`, if any.
    fn find_saved(&self, actor: UserId, key: &String) -> (found: Option<usize>)
        requires
            self.wf(),
        ensures
            match found {
                Some(i) => i < self.saved@.len() && saved_claim(self.saved@[i as int]) == claim_of(
                    actor,
                    key@,
                ) && self@.saved.contains_key(claim_of(actor, key@)) && self@.saved[claim_of(
                    actor,
                    key@,
                )] == self.saved@[i as int].response@,
                None => !self@.saved.contains_key(claim_of(actor, key@)),
            },
    {
        let ghost claim = claim_of(actor, key@);
        let mut i: usize = 0;
        while i < self.saved.len()
            invariant
                self.wf(),
                i <= self.saved@.len(),
                claim == claim_of(actor, key@),
                forall|j: int| 0 <= j < i ==> saved_claim(#[trigger] self.saved@[j]) != claim,
            decreases self.saved@.len() - i,
        {
            if self.saved[i].actor.0 == actor.0 && self.saved[i].key == *key {
                proof {
                    lemma_saved_lookup(self.saved@, i as int);
                }
                return Some(i);
            }
            i += 1;
        }
        proof {
            if saved_map(self.saved@).contains_key(claim) {
                let j = choose|j: int| has_saved(self.saved@, claim, j);
                assert(has_saved(self.saved@, claim, j));
                assert(saved_claim(self.saved@[j]) != claim);
            }
        }
        None
    }

    /// The row of the open table whose transaction holds `claim`, if any.
    fn find_claim(&self, actor: UserId, key: &String) -> (found: Option<usize>)
        requires
            self.wf(),
        ensures
            match found {
                Some(i) => i < self.open@.len() && self@.holder(claim_of(actor, key@)) == Some(
                    self.open@[i as int].id,
                ) && self@.open[self.open@[i as int].id] == transaction_view(self.open@[i as int]),
                None => self@.holder(claim_of(actor, key@)) is None,
            },
    {
        let ghost claim = claim_of(actor, key@);
        let mut i: usize = 0;
        while i < self.open.len()
            invariant
                self.wf(),
                i <= self.open@.len(),
                claim == claim_of(actor, key@),
                forall|j: int| 0 <= j < i ==> transaction_view(#[trigger] self.open@[j]).claim != claim,
            decreases self.open@.len() - i,
        {
            if self.open[i].actor.0 == actor.0 && self.open[i].key == *key {
                proof {
                    lemma_open_lookup(self.open@, i as int);
                    assert(self@.holds(self.open@[i as int].id, claim));
                    lemma_holder_is_unique(self@, self.open@[i as int].id, claim);
                }
                return Some(i);
            }
            i += 1;
        }
        proof {
            if exists|id: u64| self@.holds(id, claim) {
                let id = choose|id: u64| self@.holds(id, claim);
                assert(self@.holds(id, claim));
                let j = choose|j: int| has_open(self.open@, id, j);
                assert(has_open(self.open@, id, j));
                lemma_open_lookup(self.open@, j);
                assert(transaction_view(self.open@[j]).claim != claim);
            }
        }
        None
    }

    /// The row of the open table that holds transaction `id`, if any.
    fn find_transaction(&self, id: u64) -> (found: Option<usize>)
        requires
            self.wf(),
        ensures
            match found {
                Some(i) => i < self.open@.len() && self.open@[i as int].id == id
                    && self@.open.contains_key(id) && self@.open[id] == transaction_view(
                    self.open@[i as int],
                ),
                None => !self@.open.contains_key(id),
            },
    {
        let mut i: usize = 0;
        while i < self.open.len()
            invariant
                self.wf(),
                i <= self.open@.len(),
                forall|j: int| 0 <= j < i ==> (#[trigger] self.open@[j]).id != id,
            decreases self.open@.len() - i,
        {
            if self.open[i].id == id {
                proof {
                    lemma_open_lookup(self.open@, i as int);
                }
                return Some(i);
            }
            i += 1;
        }
        proof {
            lemma_open_missing(self.open@, id);
        }
        None
    }

    /// Asks for the claim of `actor` on `key` at time `now`.
    ///
    /// A command completed before is answered with its saved response. A
    /// free claim, or one whose holder has outlived the claim lifetime, is
    /// handed to the caller in a new transaction. A claim held within its
    /// lifetime is reported as in progress. The only failure is a store
    /// that has run out of transaction numbers.
    pub fn begin(&mut self, actor: UserId, key: &IdempotencyKey, now: u64) -> (outcome: Result<
        NextAction<Transaction>,
        StoreError,
    >)
        requires
            old(self).wf(),
        ensures
            final(self).wf(),
            final(self)@ == old(self)@.begin(claim_of(actor, key@), now).0,
            match outcome {
                Ok(action) => old(self)@.begin(claim_of(actor, key@), now).1 == Ok::<
                    ClaimView,
                    StoreError,
                >(action@),
                Err(error) => old(self)@.begin(claim_of(actor, key@), now).1 == Err::<
                    ClaimView,
                    StoreError,
                >(error),
            },
    {
        let text = key.as_string();
        let ghost claim = claim_of(actor, key@);
        proof {
            lemma_begin_wf(self@, claim, now);
        }
        match self.find_saved(actor, text) {
            Some(i) => {
                return Ok(NextAction::ReturnSavedResponse(self.saved[i].response.clone()));
            },
            None => {},
        }
        match self.find_claim(actor, text) {
            Some(i) => {
                let claimed_at = self.open[i].claimed_at;
                if !(now > claimed_at && now - claimed_at > MAX_CLAIM_LIFETIME_SECS) {
                    return Ok(NextAction::InProgress);
                }
                if self.next_transaction == u64::MAX {
                    return Err(StoreError::Exhausted);
                }
                proof {
                    lemma_open_remove(self.open@, i as int);
                }
                self.open.remove(i);
            },
            None => {
                if self.next_transaction == u64::MAX {
                    return Err(StoreError::Exhausted);
                }
            },
        }
        let id = self.next_transaction;
        let row = OpenTransaction {
            id,
            actor,
            key: text.clone(),
            claimed_at: now,
            issue: None,
            deliveries: Vec::new(),
        };
        proof {
            assert(queue_views(row.deliveries@) =~= Seq::empty());
            assert(!open_map(self.open@).contains_key(id));
            lemma_open_push(self.open@, row);
        }
        self.open.push(row);
        self.next_transaction = id + 1;
        Ok(NextAction::StartProcessing(Transaction { id }))
    }

    /// Commits `transaction` with `response` as the command's outcome. The
    /// response is saved under the transaction's claim, and the issue and
    /// queue rows written inside it become visible, all at once. Fails,
    /// changing nothing, exactly when the transaction is no longer open.
    pub fn complete(&mut self, transaction: Transaction, response: HttpResponse) -> (outcome:
        Result<(), StoreError>)
        requires
            old(self).wf(),
        ensures
            final(self).wf(),
            final(self)@ == old(self)@.complete(transaction@, response@).0,
            outcome == old(self)@.complete(transaction@, response@).1,
    {
        proof {
            lemma_complete_wf(self@, transaction@, response@);
        }
        match self.find_transaction(transaction.id) {
            None => Err(StoreError::NoSuchTransaction),
            Some(i) => {
                proof {
                    lemma_open_remove(self.open@, i as int);
                }
                let mut row = self.open.remove(i);
                let saved = SavedRow { actor: row.actor, key: row.key, response };
                proof {
                    assert(saved_claim(saved) == transaction_view(row).claim);
                    lemma_saved_push(self.saved@, saved);
                }
                self.saved.push(saved);
                let ghost issues_before = self.issues@;
                let ghost queue_before = self.queue@;
                let ghost written_rows = row.deliveries@;
                match row.issue {
                    Some(issue) => {
                        self.issues.push(issue);
                        proof {
                            assert(issue_views(self.issues@) =~= issue_views(issues_before).push(
                                issue@,
                            ));
                        }
                    },
                    None => {},
                }
                self.queue.append(&mut row.deliveries);
                proof {
                    assert(queue_views(self.queue@) =~= queue_views(queue_before) + queue_views(
                        written_rows,
                    ));
                }
                Ok(())
            },
        }
    }

    /// Rolls `transaction` back: its claim is free again and nothing it
    /// wrote remains. A transaction that is no longer open is left alone.
    pub fn abort(&mut self, transaction: Transaction)
        requires
            old(self).wf(),
        ensures
            final(self).wf(),
            final(self)@ == old(self)@.abort(transaction@),
    {
        proof {
            lemma_abort_wf(self@, transaction@);
        }
        match self.find_transaction(transaction.id) {
            None => {
                assert(self@.open.remove(transaction@) =~= self@.open);
            },
            Some(i) => {
                proof {
                    lemma_open_remove(self.open@, i as int);
                }
                self.open.remove(i);
            },
        }
    }

    /// The addresses of the subscribers who are confirmed right now, in
    /// table order.
    pub fn confirmed_emails(&self) -> (emails: Vec<String>)
        ensures
            text_views(emails@) == confirmed_emails(self@.subscribers),
    {
        let mut emails: Vec<String> = Vec::new();
        let mut i: usize = 0;
        proof {
            assert(self@.subscribers.subrange(0, 0) =~= Seq::empty());
            assert(text_views(emails@) =~= Seq::empty());
        }
        while i < self.subscribers.len()
            invariant
                i <= self.subscribers@.len(),
                self@.subscribers.len() == self.subscribers@.len(),
                text_views(emails@) == confirmed_emails(self@.subscribers.subrange(0, i as int)),
            decreases self.subscribers@.len() - i,
        {
            let ghost before = text_views(emails@);
            proof {
                let upto = self@.subscribers.subrange(0, i + 1);
                assert(upto.drop_last() =~= self@.subscribers.subrange(0, i as int));
                assert(upto.last() == self.subscribers@[i as int]@);
            }
            match self.subscribers[i].status {
                SubscriptionStatus::Confirmed => {
                    emails.push(self.subscribers[i].email.clone());
                    proof {
                        assert(text_views(emails@) =~= before.push(self.subscribers@[i as int].email@));
                    }
                },
                SubscriptionStatus::PendingConfirmation => {},
            }
            i += 1;
        }
        proof {
            assert(self@.subscribers.subrange(0, i as int) =~= self@.subscribers);
        }
        emails
    }

    /// Writes one issue inside `transaction`, together with its fan-out:
    /// one queue row for every subscriber who is confirmed at this instant.
    /// Nothing is sent and nothing becomes visible before the transaction
    /// commits. Returns the number of the issue. Fails, changing nothing,
    /// when the transaction is no longer open, has written its issue
    /// already, or the store has run out of issue numbers.
    pub fn enqueue(
        &mut self,
        transaction: &Transaction,
        title: &str,
        text_body: &str,
        html_body: &str,
        now: u64,
    ) -> (outcome: Result<u64, StoreError>)
        requires
            old(self).wf(),
        ensures
            final(self).wf(),
            final(self)@ == old(self)@.enqueue(transaction@, title@, text_body@, html_body@, now).0,
            outcome == old(self)@.enqueue(transaction@, title@, text_body@, html_body@, now).1,
    {
        proof {
            lemma_enqueue_wf(self@, transaction@, title@, text_body@, html_body@, now);
        }
        let i = match self.find_transaction(transaction.id) {
            None => {
                return Err(StoreError::NoSuchTransaction);
            },
            Some(i) => i,
        };
        if self.open[i].issue.is_some() {
            return Err(StoreError::AlreadyEnqueued);
        }
        if self.next_issue == u64::MAX {
            return Err(StoreError::Exhausted);
        }
        let issue_id = self.next_issue;
        let emails = self.confirmed_emails();
        let mut fresh: Vec<QueueRow> = Vec::new();
        let mut k: usize = 0;
        while k < emails.len()
            invariant
                k <= emails@.len(),
                fresh@.len() == k,
                forall|j: int|
                    0 <= j < k ==> (#[trigger] fresh@[j])@ == fan_out(
                        issue_id,
                        text_views(emails@),
                    )[j],
            decreases emails@.len() - k,
        {
            fresh.push(
                QueueRow {
                    issue_id,
                    recipient: emails[k].clone(),
                    attempts: 0,
                    state: DeliveryState::Pending,
                    locked: false,
                },
            );
            k += 1;
        }
        proof {
            assert(queue_views(fresh@) =~= fan_out(issue_id, confirmed_emails(self@.subscribers)));
        }
        let ghost rows_before = self.open@;
        let ghost fresh_rows = fresh@;
        let mut row = self.open.remove(i);
        row.issue = Some(
            Issue {
                id: issue_id,
                actor: row.actor,
                idempotency_key: row.key.clone(),
                title: title.to_owned(),
                text_body: text_body.to_owned(),
                html_body: html_body.to_owned(),
                created_at: now,
            },
        );
        row.deliveries = fresh;
        proof {
            lemma_open_update(rows_before, i as int, row);
            assert(rows_before.remove(i as int).insert(i as int, row) =~= rows_before.update(
                i as int,
                row,
            ));
        }
        self.open.insert(i, row);
        self.next_issue = issue_id + 1;
        Ok(issue_id)
    }

    /// The row of the subscriptions table with the address `email`, if any.
    fn find_email(&self, email: &String) -> (found: Option<usize>)
        ensures
            match found {
                Some(i) => i < self.subscribers@.len() && self.subscribers@[i as int].email@
                    == email@,
                None => !self@.has_email(email@),
            },
    {
        let mut i: usize = 0;
        while i < self.subscribers.len()
            invariant
                i <= self.subscribers@.len(),
                forall|j: int| 0 <= j < i ==> (#[trigger] self.subscribers@[j]).email@ != email@,
            decreases self.subscribers@.len() - i,
        {
            if self.subscribers[i].email == *email {
                return Some(i);
            }
            i += 1;
        }
        proof {
            if self@.has_email(email@) {
                let j = choose|j: int|
                    0 <= j < self@.subscribers.len() && #[trigger] self@.subscribers[j].email
                        == email@;
                assert(self.subscribers@[j].email@ != email@);
            }
        }
        None
    }

    /// Records a new subscriber, not yet confirmed. Fails, changing
    /// nothing, exactly when another subscriber already has the address.
    pub fn insert_subscriber(&mut self, id: u128, email: &str, name: &str, now: u64) -> (outcome:
        Result<(), StoreError>)
        requires
            old(self).wf(),
        ensures
            final(self).wf(),
            final(self)@ == old(self)@.insert_subscriber(id, email@, name@, now).0,
            outcome == old(self)@.insert_subscriber(id, email@, name@, now).1,
    {
        proof {
            lemma_insert_subscriber_wf(self@, id, email@, name@, now);
        }
        let address = email.to_owned();
        match self.find_email(&address) {
            Some(i) => {
                proof {
                    assert(self@.subscribers[i as int].email == email@);
                }
                Err(StoreError::DuplicateEmail)
            },
            None => {
                let ghost before = self@.subscribers;
                let row = Subscriber {
                    id,
                    email: address,
                    name: name.to_owned(),
                    subscribed_at: now,
                    status: SubscriptionStatus::PendingConfirmation,
                };
                self.subscribers.push(row);
                proof {
                    assert(self@.subscribers =~= before.push(row@));
                }
                Ok(())
            },
        }
    }

    /// Records the confirmation token handed to a subscriber.
    pub fn store_token(&mut self, subscriber_id: u128, token: &str)
        requires
            old(self).wf(),
        ensures
            final(self).wf(),
            final(self)@ == old(self)@.store_token(subscriber_id, token@),
    {
        let ghost before = self@.tokens;
        proof {
            lemma_store_token_wf(self@, subscriber_id, token@);
        }
        self.tokens.push(SubscriptionToken { token: token.to_owned(), subscriber_id });
        proof {
            assert(self@.tokens =~= before.push(TokenView { token: token@, subscriber_id }));
        }
    }

    /// The subscriber that `token` was first handed to, if any.
    pub fn subscriber_id_from_token(&self, token: &str) -> (found: Option<u128>)
        ensures
            found == self@.subscriber_id_from_token(token@),
    {
        let wanted = token.to_owned();
        let mut i: usize = 0;
        while i < self.tokens.len()
            invariant
                i <= self.tokens@.len(),
                wanted@ == token@,
                forall|j: int| 0 <= j < i ==> (#[trigger] self@.tokens[j]).token != token@,
            decreases self.tokens@.len() - i,
        {
            if self.tokens[i].token == wanted {
                proof {
                    assert(self@.tokens[i as int].token == token@);
                    assert(self@.is_first_token(token@, i as int));
                    let chosen = choose|j: int| self@.is_first_token(token@, j);
                    assert(self@.is_first_token(token@, chosen));
                    assert(chosen == i);
                }
                return Some(self.tokens[i].subscriber_id);
            }
            i += 1;
        }
        proof {
            if exists|j: int| self@.is_first_token(token@, j) {
                let j = choose|j: int| self@.is_first_token(token@, j);
                assert(self@.tokens[j].token != token@);
            }
        }
        None
    }

    /// Marks every subscriber numbered `id` as confirmed.
    pub fn confirm_subscriber(&mut self, id: u128)
        requires
            old(self).wf(),
        ensures
            final(self).wf(),
            final(self)@ == old(self)@.confirm_subscriber(id),
    {
        proof {
            lemma_confirm_subscriber_wf(self@, id);
        }
        let ghost before = self.subscribers@;
        let mut i: usize = 0;
        while i < self.subscribers.len()
            invariant
                i <= self.subscribers@.len(),
                self.subscribers@.len() == before.len(),
                forall|j: int|
                    0 <= j < i ==> (#[trigger] self.subscribers@[j])@ == old(
                        self,
                    )@.confirm_subscriber(id).subscribers[j],
                forall|j: int| i <= j < before.len() ==> self.subscribers@[j] == before[j],
                before == old(self).subscribers@,
                self.tokens == old(self).tokens,
                self.saved == old(self).saved,
                self.open == old(self).open,
                self.issues == old(self).issues,
                self.queue == old(self).queue,
                self.next_transaction == old(self).next_transaction,
                self.next_issue == old(self).next_issue,
            decreases self.subscribers@.len() - i,
        {
            if self.subscribers[i].id == id {
                self.subscribers[i].status = SubscriptionStatus::Confirmed;
            }
            i += 1;
        }
        proof {
            assert(self@.subscribers =~= old(self)@.confirm_subscriber(id).subscribers);
        }
    }

    /// A worker asks for work. The first queue row that is pending and held
    /// by no worker is locked and handed over; with no such row the store
    /// is left alone and nothing is returned. The call never waits.
    pub fn next_task(&mut self) -> (task: Option<Task>)
        requires
            old(self).wf(),
        ensures
            final(self).wf(),
            final(self)@ == old(self)@.next_task().0,
            match task {
                Some(found) => old(self)@.next_task().1 == Some(found@),
                None => old(self)@.next_task().1 is None,
            },
    {
        let mut i: usize = 0;
        while i < self.queue.len()
            invariant
                self.wf(),
                i <= self.queue@.len(),
                *self == *old(self),
                forall|j: int| 0 <= j < i ==> !is_available(#[trigger] self@.queue[j]),
            decreases self.queue@.len() - i,
        {
            let available = match self.queue[i].state {
                DeliveryState::Pending => !self.queue[i].locked,
                DeliveryState::Failed => false,
            };
            if available {
                proof {
                    lemma_next_task_wf(self@);
                    assert(is_available(self@.queue[i as int]));
                    assert(self@.is_next_available(i as int));
                    let chosen = choose|j: int| self@.is_next_available(j);
                    assert(self@.is_next_available(chosen));
                    assert(chosen == i);
                }
                let ghost before = self@.queue;
                let task = Task {
                    issue_id: self.queue[i].issue_id,
                    recipient: self.queue[i].recipient.clone(),
                    attempts: self.queue[i].attempts,
                };
                self.queue[i].locked = true;
                proof {
                    assert(self@.queue =~= before.update(
                        i as int,
                        QueueRowView { locked: true, ..before[i as int] },
                    ));
                }
                return Some(task);
            }
            i += 1;
        }
        proof {
            if exists|j: int| self@.is_next_available(j) {
                let j = choose|j: int| self@.is_next_available(j);
                assert(!is_available(self@.queue[j]));
            }
        }
        None
    }

    /// A worker reports how its attempt at `task` ended. The row it holds
    /// is deleted after a delivery, marked failed after a permanent failure
    /// or the last allowed transient one, and otherwise released with one
    /// more attempt counted. If no locked row matches the task the store is
    /// left alone. The answer says what became of the row, if there was
    /// one.
    pub fn finish_task(&mut self, task: &Task, outcome: DeliveryOutcome) -> (settled: Option<
        Disposition,
    >)
        requires
            old(self).wf(),
        ensures
            final(self).wf(),
            final(self)@ == old(self)@.finish_task(task@, outcome),
            settled == old(self)@.settlement(task@, outcome),
    {
        let mut i: usize = 0;
        while i < self.queue.len()
            invariant
                self.wf(),
                i <= self.queue@.len(),
                *self == *old(self),
                forall|j: int| 0 <= j < i ==> !is_held_for(#[trigger] self@.queue[j], task@),
            decreases self.queue@.len() - i,
        {
            if self.queue[i].locked && self.queue[i].issue_id == task.issue_id
                && self.queue[i].recipient == task.recipient {
                proof {
                    lemma_finish_task_wf(self@, task@, outcome);
                    assert(is_held_for(self@.queue[i as int], task@));
                    assert(self@.is_first_held(task@, i as int));
                    let chosen = choose|j: int| self@.is_first_held(task@, j);
                    assert(self@.is_first_held(task@, chosen));
                    assert(chosen == i);
                }
                let ghost before = self@.queue;
                let attempts = self.queue[i].attempts;
                let decided = crate::delivery::disposition(attempts, outcome);
                match decided {
                    Disposition::Delete => {
                        self.queue.remove(i);
                        proof {
                            assert(self@.queue =~= before.remove(i as int));
                        }
                    },
                    Disposition::Retry => {
                        self.queue[i].attempts = attempts + 1;
                        self.queue[i].locked = false;
                        proof {
                            assert(self@.queue =~= before.update(
                                i as int,
                                QueueRowView {
                                    attempts: (attempts + 1) as u32,
                                    locked: false,
                                    ..before[i as int]
                                },
                            ));
                        }
                    },
                    Disposition::Fail => {
                        self.queue[i].state = DeliveryState::Failed;
                        self.queue[i].locked = false;
                        proof {
                            assert(self@.queue =~= before.update(
                                i as int,
                                QueueRowView {
                                    state: DeliveryState::Failed,
                                    locked: false,
                                    ..before[i as int]
                                },
                            ));
                        }
                    },
                }
                return Some(decided);
            }
            i += 1;
        }
        proof {
            if exists|j: int| self@.is_first_held(task@, j) {
                let j = choose|j: int| self@.is_first_held(task@, j);
                assert(!is_held_for(self@.queue[j], task@));
            }
        }
        None
    }

    /// A worker gives `task` up without having tried, as when it is stopped
    /// before it could send: the row it holds is released as it was, for
    /// another worker to take, and no attempt is counted. If no locked row
    /// matches the task the store is left alone.
    pub fn release_task(&mut self, task: &Task)
        requires
            old(self).wf(),
        ensures
            final(self).wf(),
            final(self)@ == old(self)@.release_task(task@),
    {
        let mut i: usize = 0;
        while i < self.queue.len()
            invariant
                self.wf(),
                i <= self.queue@.len(),
                *self == *old(self),
                forall|j: int| 0 <= j < i ==> !is_held_for(#[trigger] self@.queue[j], task@),
            decreases self.queue@.len() - i,
        {
            if self.queue[i].locked && self.queue[i].issue_id == task.issue_id
                && self.queue[i].recipient == task.recipient {
                proof {
                    lemma_release_task_wf(self@, task@);
                    assert(is_held_for(self@.queue[i as int], task@));
                    assert(self@.is_first_held(task@, i as int));
                    let chosen = choose|j: int| self@.is_first_held(task@, j);
                    assert(self@.is_first_held(task@, chosen));
                    assert(chosen == i);
                }
                let ghost before = self@.queue;
                self.queue[i].locked = false;
                proof {
                    assert(self@.queue =~= before.update(
                        i as int,
                        QueueRowView { locked: false, ..before[i as int] },
                    ));
                }
                return ;
            }
            i += 1;
        }
        proof {
            if exists|j: int| self@.is_first_held(task@, j) {
                let j = choose|j: int| self@.is_first_held(task@, j);
                assert(!is_held_for(self@.queue[j], task@));
            }
        }
    }

    /// The first issue numbered `id`, if any.
    pub fn issue(&self, id: u64) -> (found: Option<Issue>)
        ensures
            match found {
                Some(issue) => self@.issue(id) == Some(issue@),
                None => self@.issue(id) is None,
            },
    {
        let mut i: usize = 0;
        while i < self.issues.len()
            invariant
                i <= self.issues@.len(),
                forall|j: int| 0 <= j < i ==> (#[trigger] self@.issues[j]).id != id,
            decreases self.issues@.len() - i,
        {
            if self.issues[i].id == id {
                proof {
                    assert(self@.issues[i as int].id == id);
                    assert(self@.is_first_issue(id, i as int));
                    let chosen = choose|j: int| self@.is_first_issue(id, j);
                    assert(self@.is_first_issue(id, chosen));
                    assert(chosen == i);
                }
                return Some(self.issues[i].clone());
            }
            i += 1;
        }
        proof {
            if exists|j: int| self@.is_first_issue(id, j) {
                let j = choose|j: int| self@.is_first_issue(id, j);
                assert(self@.issues[j].id != id);
            }
        }
        None
    }

    /// Every subscriber, in table order.
    pub fn subscribers(&self) -> (rows: Vec<Subscriber>)
        ensures
            subscriber_views(rows@) == self@.subscribers,
    {
        let mut rows: Vec<Subscriber> = Vec::new();
        let mut i: usize = 0;
        while i < self.subscribers.len()
            invariant
                i <= self.subscribers@.len(),
                rows@.len() == i,
                forall|j: int| 0 <= j < i ==> (#[trigger] rows@[j])@ == self.subscribers@[j]@,
            decreases self.subscribers@.len() - i,
        {
            rows.push(self.subscribers[i].clone());
            i += 1;
        }
        assert(subscriber_views(rows@) =~= self@.subscribers);
        rows
    }

    /// Every committed issue, in the order of commitment.
    pub fn issues(&self) -> (rows: Vec<Issue>)
        ensures
            issue_views(rows@) == self@.issues,
    {
        let mut rows: Vec<Issue> = Vec::new();
        let mut i: usize = 0;
        while i < self.issues.len()
            invariant
                i <= self.issues@.len(),
                rows@.len() == i,
                forall|j: int| 0 <= j < i ==> (#[trigger] rows@[j])@ == self.issues@[j]@,
            decreases self.issues@.len() - i,
        {
            rows.push(self.issues[i].clone());
            i += 1;
        }
        assert(issue_views(rows@) =~= self@.issues);
        rows
    }

    /// Every committed queue row, in queue order.
    pub fn queue(&self) -> (rows: Vec<QueueRow>)
        ensures
            queue_views(rows@) == self@.queue,
    {
        let mut rows: Vec<QueueRow> = Vec::new();
        let mut i: usize = 0;
        while i < self.queue.len()
            invariant
                i <= self.queue@.len(),
                rows@.len() == i,
                forall|j: int| 0 <= j < i ==> (#[trigger] rows@[j])@ == self.queue@[j]@,
            decreases self.queue@.len() - i,
        {
            rows.push(self.queue[i].clone());
            i += 1;
        }
        assert(queue_views(rows@) =~= self@.queue);
        rows
    }

    /// The response saved for the command of `actor` under `key`, if the
    /// command has completed.
    pub fn saved_response(&self, actor: UserId, key: &IdempotencyKey) -> (saved: Option<
        HttpResponse,
    >)
        requires
            self.wf(),
        ensures
            match saved {
                Some(response) => self@.saved.contains_key(claim_of(actor, key@))
                    && self@.saved[claim_of(actor, key@)] == response@,
                None => !self@.saved.contains_key(claim_of(actor, key@)),
            },
    {
        match self.find_saved(actor, key.as_string()) {
            Some(i) => Some(self.saved[i].response.clone()),
            None => None,
        }
    }
}

} // verus!
