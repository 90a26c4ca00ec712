//! Every operation keeps the store well formed.

use crate::response::ResponseView;
use crate::store::model::{
    confirmed_emails, disposition_of, fan_out, is_fan_out_of, is_settled,
    is_transaction_in_order, same_delivery, ClaimKey, ClaimView, DeliveryOutcome, Disposition,
    StoreView, SubscriberView, TaskView,
};
use vstd::prelude::*;

verus! {

/// The empty store is well formed.
pub proof fn lemma_empty_wf()
    ensures
        StoreView::empty().wf(),
{
}

/// In a well-formed store at most one open transaction holds a claim, so
/// any transaction that holds it is the holder.
pub proof fn lemma_holder_is_unique(store: StoreView, id: u64, claim: ClaimKey)
    requires
        store.wf(),
        store.holds(id, claim),
    ensures
        store.holder(claim) == Some(id),
{
    let chosen = choose|other: u64| store.holds(other, claim);
    assert(store.holds(chosen, claim));
    if chosen != id {
        assert(store.open[chosen].claim != store.open[id].claim);
    }
}

/// Among subscribers with different addresses, the confirmed addresses are
/// all different, and each is the address of a subscriber.
pub proof fn lemma_confirmed_emails_are_distinct(subscribers: Seq<SubscriberView>)
    requires
        forall|i: int, j: int|
            0 <= i < j < subscribers.len() ==> (#[trigger] subscribers[i]).email != (
            #[trigger] subscribers[j]).email,
    ensures
        forall|i: int, j: int|
            0 <= i < j < confirmed_emails(subscribers).len() ==> #[trigger] confirmed_emails(
                subscribers,
            )[i] != #[trigger] confirmed_emails(subscribers)[j],
        forall|i: int|
            0 <= i < confirmed_emails(subscribers).len() ==> exists|k: int|
                0 <= k < subscribers.len() && (#[trigger] subscribers[k]).email
                    == #[trigger] confirmed_emails(subscribers)[i],
    decreases subscribers.len(),
{
    if subscribers.len() > 0 {
        let earlier = subscribers.drop_last();
        assert forall|i: int, j: int| 0 <= i < j < earlier.len() implies (
        #[trigger] earlier[i]).email != (#[trigger] earlier[j]).email by {
            assert(subscribers[i].email != subscribers[j].email);
        }
        lemma_confirmed_emails_are_distinct(earlier);
        let before = confirmed_emails(earlier);
        let all = confirmed_emails(subscribers);
        assert forall|i: int| 0 <= i < all.len() implies exists|k: int|
            0 <= k < subscribers.len() && (#[trigger] subscribers[k]).email == #[trigger] all[i] by {
            if i < before.len() {
                let k = choose|k: int|
                    0 <= k < earlier.len() && (#[trigger] earlier[k]).email == before[i];
                assert(subscribers[k].email == all[i]);
            } else {
                assert(subscribers[subscribers.len() - 1].email == all[i]);
            }
        }
        assert forall|i: int, j: int| 0 <= i < j < all.len() implies #[trigger] all[i]
            != #[trigger] all[j] by {
            if j < before.len() {
                assert(before[i] != before[j]);
            } else {
                let k = choose|k: int|
                    0 <= k < earlier.len() && (#[trigger] earlier[k]).email == before[i];
                assert(subscribers[k].email != subscribers[subscribers.len() - 1].email);
            }
        }
    }
}

/// The fan-out of an issue over the confirmed subscribers of a well-formed
/// store holds one row for each recipient and no more.
pub proof fn lemma_fan_out_in_order(store: StoreView, issue_id: u64)
    requires
        store.wf(),
    ensures
        is_fan_out_of(fan_out(issue_id, confirmed_emails(store.subscribers)), issue_id),
{
    lemma_confirmed_emails_are_distinct(store.subscribers);
    let emails = confirmed_emails(store.subscribers);
    let rows = fan_out(issue_id, emails);
    assert forall|k: int, l: int| 0 <= k < l < rows.len() implies (#[trigger] rows[k]).recipient
        != (#[trigger] rows[l]).recipient by {
        assert(emails[k] != emails[l]);
    }
}

/// Recording a subscriber keeps the store well formed.
pub proof fn lemma_insert_subscriber_wf(
    store: StoreView,
    id: u128,
    email: Seq<char>,
    name: Seq<char>,
    now: u64,
)
    requires
        store.wf(),
    ensures
        store.insert_subscriber(id, email, name, now).0.wf(),
{
    let after = store.insert_subscriber(id, email, name, now).0;
    if !store.has_email(email) {
        assert forall|i: int, j: int| 0 <= i < j < after.subscribers.len() implies (
        #[trigger] after.subscribers[i]).email != (#[trigger] after.subscribers[j]).email by {
            if j == store.subscribers.len() {
                assert(store.subscribers[i].email != email);
            } else {
                assert(store.subscribers[i].email != store.subscribers[j].email);
            }
        }
        assert(after.issues_in_order());
        assert(after.writes_in_order());
        lemma_queue_kept(store, after);
    }
}

/// A store whose queue and issues are those of a well-formed store has its
/// queue in order.
proof fn lemma_queue_kept(store: StoreView, after: StoreView)
    requires
        store.queue_in_order(),
        after.queue == store.queue,
        after.issues == store.issues,
    ensures
        after.queue_in_order(),
{
    assert forall|i: int| 0 <= i < after.queue.len() implies after.has_issue(
        (#[trigger] after.queue[i]).issue_id,
    ) by {
        assert(store.has_issue(store.queue[i].issue_id));
    }
}

/// An issue of a store is an issue of any store with the same issues.
proof fn lemma_issue_kept(store: StoreView, after: StoreView, id: u64)
    requires
        after.issues == store.issues,
        store.has_issue(id),
    ensures
        after.has_issue(id),
{
    let k = choose|k: int| 0 <= k < store.issues.len() && (#[trigger] store.issues[k]).id == id;
    assert(after.issues[k].id == id);
}

/// Recording a token keeps the store well formed.
pub proof fn lemma_store_token_wf(store: StoreView, subscriber_id: u128, token: Seq<char>)
    requires
        store.wf(),
    ensures
        store.store_token(subscriber_id, token).wf(),
{
    let after = store.store_token(subscriber_id, token);
    assert(after.issues_in_order());
    assert(after.writes_in_order());
    lemma_queue_kept(store, after);
}

/// Confirming a subscriber keeps the store well formed.
pub proof fn lemma_confirm_subscriber_wf(store: StoreView, id: u128)
    requires
        store.wf(),
    ensures
        store.confirm_subscriber(id).wf(),
{
    let after = store.confirm_subscriber(id);
    assert forall|i: int, j: int| 0 <= i < j < after.subscribers.len() implies (
    #[trigger] after.subscribers[i]).email != (#[trigger] after.subscribers[j]).email by {
        assert(store.subscribers[i].email != store.subscribers[j].email);
    }
    assert(after.issues_in_order());
    assert(after.writes_in_order());
    lemma_queue_kept(store, after);
}

/// Rolling a transaction back keeps the store well formed.
pub proof fn lemma_abort_wf(store: StoreView, id: u64)
    requires
        store.wf(),
    ensures
        store.abort(id).wf(),
{
    let after = store.abort(id);
    assert forall|a: u64, b: u64|
        after.open.contains_key(a) && after.open.contains_key(b) && a != b implies (
    #[trigger] after.open[a]).claim != (#[trigger] after.open[b]).claim by {
        assert(store.open[a].claim != store.open[b].claim);
    }
    assert(after.issues_in_order());
    assert(after.writes_in_order()) by {
        assert forall|other: u64| #[trigger] after.open.contains_key(other) implies
            is_transaction_in_order(after.open[other], after.next_issue) by {
            assert(store.open.contains_key(other));
        }
    }
    lemma_queue_kept(store, after);
}

/// Opening a transaction on a claim that no one holds and that is not
/// completed keeps the store well formed.
proof fn lemma_with_claim_wf(store: StoreView, claim: ClaimKey, now: u64)
    requires
        store.wf(),
        store.next_transaction < u64::MAX,
        !store.saved.contains_key(claim),
        forall|other: u64| store.open.contains_key(other) ==> (#[trigger] store.open[other]).claim
            != claim,
    ensures
        store.with_claim(claim, now).wf(),
{
    let after = store.with_claim(claim, now);
    let id = store.next_transaction;
    assert forall|a: u64, b: u64|
        after.open.contains_key(a) && after.open.contains_key(b) && a != b implies (
    #[trigger] after.open[a]).claim != (#[trigger] after.open[b]).claim by {
        if a != id && b != id {
            assert(store.open[a].claim != store.open[b].claim);
        }
    }
    assert(after.issues_in_order());
    assert(after.writes_in_order()) by {
        assert forall|other: u64| #[trigger] after.open.contains_key(other) implies
            is_transaction_in_order(after.open[other], after.next_issue) by {
            if other != id {
                assert(store.open.contains_key(other));
            }
        }
    }
    lemma_queue_kept(store, after);
}

/// Asking for a claim keeps the store well formed.
pub proof fn lemma_begin_wf(store: StoreView, claim: ClaimKey, now: u64)
    requires
        store.wf(),
    ensures
        store.begin(claim, now).0.wf(),
{
    if store.begin(claim, now).1 matches Ok(ClaimView::StartProcessing(_)) {
        let freed = match store.holder(claim) {
            Some(stale) => store.abort(stale),
            None => store,
        };
        if store.holder(claim) is Some {
            lemma_abort_wf(store, store.holder(claim)->0);
        }
        assert forall|other: u64| freed.open.contains_key(other) implies (
        #[trigger] freed.open[other]).claim != claim by {
            if freed.open[other].claim == claim {
                assert(store.holds(other, claim));
                lemma_holder_is_unique(store, other, claim);
            }
        }
        lemma_with_claim_wf(freed, claim, now);
    }
}

/// Committing a transaction keeps the store well formed.
pub proof fn lemma_complete_wf(store: StoreView, id: u64, response: ResponseView)
    requires
        store.wf(),
    ensures
        store.complete(id, response).0.wf(),
{
    let after = store.complete(id, response).0;
    if store.open.contains_key(id) {
        let transaction = store.open[id];
        assert(is_transaction_in_order(transaction, store.next_issue));
        assert(!store.saved.contains_key(transaction.claim));
        assert forall|a: u64, b: u64|
            after.open.contains_key(a) && after.open.contains_key(b) && a != b implies (
        #[trigger] after.open[a]).claim != (#[trigger] after.open[b]).claim by {
            assert(store.open[a].claim != store.open[b].claim);
        }
        assert forall|other: u64| #[trigger] after.open.contains_key(other) implies
            !after.saved.contains_key(after.open[other].claim) by {
            assert(store.open[other].claim != store.open[id].claim);
        }
        assert(after.issues_in_order()) by {
            match transaction.issue {
                Some(issue) => {
                    assert forall|i: int| 0 <= i < after.issues.len() implies (
                    #[trigger] after.issues[i]).id < after.next_issue by {
                        if i < store.issues.len() {
                            assert(store.issues[i].id < store.next_issue);
                        }
                    }
                    assert forall|i: int, j: int| 0 <= i < j < after.issues.len() implies (
                    #[trigger] after.issues[i]).id != (#[trigger] after.issues[j]).id by {
                        if j < store.issues.len() {
                            assert(store.issues[i].id != store.issues[j].id);
                        } else {
                            assert(store.issues[i].id != store.open[id].issue->0.id);
                        }
                    }
                    assert forall|i: int| 0 <= i < after.issues.len() implies after.saved.contains_key(
                        (#[trigger] after.issues[i]).command,
                    ) by {
                        if i < store.issues.len() {
                            assert(store.saved.contains_key(store.issues[i].command));
                        }
                    }
                    assert forall|i: int, j: int| 0 <= i < j < after.issues.len() implies (
                    #[trigger] after.issues[i]).command != (#[trigger] after.issues[j]).command by {
                        if j < store.issues.len() {
                            assert(store.issues[i].command != store.issues[j].command);
                        } else {
                            assert(store.saved.contains_key(store.issues[i].command));
                        }
                    }
                },
                None => {
                    assert forall|i: int| 0 <= i < after.issues.len() implies after.saved.contains_key(
                        (#[trigger] after.issues[i]).command,
                    ) by {
                        assert(store.saved.contains_key(store.issues[i].command));
                    }
                },
            }
        }
        assert(after.writes_in_order()) by {
            assert forall|other: u64| #[trigger] after.open.contains_key(other) implies
                is_transaction_in_order(after.open[other], after.next_issue) by {
                assert(store.open.contains_key(other));
            }
            assert forall|other: u64, i: int|
                after.open.contains_key(other) && (#[trigger] after.open[other]).issue is Some
                    && 0 <= i < after.issues.len() implies (#[trigger] after.issues[i]).id
                != after.open[other].issue->0.id by {
                if i < store.issues.len() {
                    assert(store.issues[i].id != store.open[other].issue->0.id);
                } else {
                    assert(store.open[other].issue->0.id != store.open[id].issue->0.id);
                }
            }
            assert forall|a: u64, b: u64|
                after.open.contains_key(a) && after.open.contains_key(b) && a != b && (
                #[trigger] after.open[a]).issue is Some && (
                #[trigger] after.open[b]).issue is Some implies after.open[a].issue->0.id
                != after.open[b].issue->0.id by {
                assert(store.open[a].issue->0.id != store.open[b].issue->0.id);
            }
        }
        assert(after.queue_in_order()) by {
            let rows = transaction.deliveries;
            assert forall|i: int| 0 <= i < after.queue.len() implies is_settled(
                #[trigger] after.queue[i],
            ) by {
                if i < store.queue.len() {
                    assert(is_settled(store.queue[i]));
                } else {
                    assert(is_settled(rows[i - store.queue.len()]));
                }
            }
            assert forall|i: int| 0 <= i < after.queue.len() implies after.has_issue(
                (#[trigger] after.queue[i]).issue_id,
            ) by {
                if i < store.queue.len() {
                    assert(store.has_issue(store.queue[i].issue_id));
                    let k = choose|k: int|
                        0 <= k < store.issues.len() && (#[trigger] store.issues[k]).id
                            == store.queue[i].issue_id;
                    assert(after.issues[k].id == store.queue[i].issue_id);
                } else {
                    assert(rows[i - store.queue.len()].issue_id == transaction.issue->0.id);
                    assert(after.issues[after.issues.len() - 1].id == transaction.issue->0.id);
                }
            }
            assert forall|i: int, j: int| 0 <= i < j < after.queue.len() implies !same_delivery(
                #[trigger] after.queue[i],
                #[trigger] after.queue[j],
            ) by {
                if j < store.queue.len() {
                    assert(!same_delivery(store.queue[i], store.queue[j]));
                } else if i < store.queue.len() {
                    assert(store.has_issue(store.queue[i].issue_id));
                    let k = choose|k: int|
                        0 <= k < store.issues.len() && (#[trigger] store.issues[k]).id
                            == store.queue[i].issue_id;
                    assert(store.issues[k].id != store.open[id].issue->0.id);
                    assert(rows[j - store.queue.len()].issue_id == transaction.issue->0.id);
                } else {
                    assert(rows[i - store.queue.len()].recipient != rows[j
                        - store.queue.len()].recipient);
                }
            }
        }
    }
}

/// Writing an issue inside a transaction keeps the store well formed.
pub proof fn lemma_enqueue_wf(
    store: StoreView,
    id: u64,
    title: Seq<char>,
    text_body: Seq<char>,
    html_body: Seq<char>,
    now: u64,
)
    requires
        store.wf(),
    ensures
        store.enqueue(id, title, text_body, html_body, now).0.wf(),
{
    let after = store.enqueue(id, title, text_body, html_body, now).0;
    if store.enqueue(id, title, text_body, html_body, now).1 is Ok {
        lemma_fan_out_in_order(store, store.next_issue);
        assert forall|a: u64, b: u64|
            after.open.contains_key(a) && after.open.contains_key(b) && a != b implies (
        #[trigger] after.open[a]).claim != (#[trigger] after.open[b]).claim by {
            assert(store.open[a].claim != store.open[b].claim);
        }
        assert(after.issues_in_order()) by {
            assert forall|i: int| 0 <= i < after.issues.len() implies (
            #[trigger] after.issues[i]).id < after.next_issue by {
                assert(store.issues[i].id < store.next_issue);
            }
        }
        assert(after.writes_in_order()) by {
            assert forall|other: u64| #[trigger] after.open.contains_key(other) implies
                is_transaction_in_order(after.open[other], after.next_issue) by {
                if other != id {
                    assert(store.open.contains_key(other));
                    assert(is_transaction_in_order(store.open[other], store.next_issue));
                }
            }
            assert forall|other: u64, i: int|
                after.open.contains_key(other) && (#[trigger] after.open[other]).issue is Some
                    && 0 <= i < after.issues.len() implies (#[trigger] after.issues[i]).id
                != after.open[other].issue->0.id by {
                if other != id {
                    assert(store.issues[i].id != store.open[other].issue->0.id);
                } else {
                    assert(store.issues[i].id < store.next_issue);
                }
            }
            assert forall|a: u64, b: u64|
                after.open.contains_key(a) && after.open.contains_key(b) && a != b && (
                #[trigger] after.open[a]).issue is Some && (
                #[trigger] after.open[b]).issue is Some implies after.open[a].issue->0.id
                != after.open[b].issue->0.id by {
                if a != id && b != id {
                    assert(store.open[a].issue->0.id != store.open[b].issue->0.id);
                } else if a == id {
                    assert(is_transaction_in_order(store.open[b], store.next_issue));
                } else {
                    assert(is_transaction_in_order(store.open[a], store.next_issue));
                }
            }
        }
        lemma_queue_kept(store, after);
    }
}

/// Handing out work keeps the store well formed.
pub proof fn lemma_next_task_wf(store: StoreView)
    requires
        store.wf(),
    ensures
        store.next_task().0.wf(),
{
    let after = store.next_task().0;
    if exists|i: int| store.is_next_available(i) {
        let at = choose|i: int| store.is_next_available(i);
        assert(after.issues_in_order());
        assert(after.writes_in_order());
        assert(after.queue_in_order()) by {
            assert forall|i: int| 0 <= i < after.queue.len() implies is_settled(
                #[trigger] after.queue[i],
            ) by {
                assert(is_settled(store.queue[i]));
            }
            assert forall|i: int| 0 <= i < after.queue.len() implies after.has_issue(
                (#[trigger] after.queue[i]).issue_id,
            ) by {
                assert(after.queue[i].issue_id == store.queue[i].issue_id);
                lemma_issue_kept(store, after, store.queue[i].issue_id);
            }
            assert forall|i: int, j: int| 0 <= i < j < after.queue.len() implies !same_delivery(
                #[trigger] after.queue[i],
                #[trigger] after.queue[j],
            ) by {
                assert(!same_delivery(store.queue[i], store.queue[j]));
            }
        }
    }
}

/// Settling a task keeps the store well formed.
pub proof fn lemma_finish_task_wf(store: StoreView, task: TaskView, outcome: DeliveryOutcome)
    requires
        store.wf(),
    ensures
        store.finish_task(task, outcome).wf(),
{
    let after = store.finish_task(task, outcome);
    if exists|i: int| store.is_first_held(task, i) {
        let at = choose|i: int| store.is_first_held(task, i);
        assert(after.issues_in_order());
        assert(after.writes_in_order());
        assert(after.queue_in_order()) by {
            let removed = disposition_of(store.queue[at].attempts, outcome) == Disposition::Delete;
            assert forall|i: int| 0 <= i < after.queue.len() implies is_settled(
                #[trigger] after.queue[i],
            ) && after.has_issue(after.queue[i].issue_id) by {
                let o = if removed && i >= at {
                    i + 1
                } else {
                    i
                };
                assert(is_settled(store.queue[o]));
                assert(after.queue[i].issue_id == store.queue[o].issue_id);
                lemma_issue_kept(store, after, store.queue[o].issue_id);
            }
            assert forall|i: int, j: int| 0 <= i < j < after.queue.len() implies !same_delivery(
                #[trigger] after.queue[i],
                #[trigger] after.queue[j],
            ) by {
                let oi = if removed && i >= at {
                    i + 1
                } else {
                    i
                };
                let oj = if removed && j >= at {
                    j + 1
                } else {
                    j
                };
                assert(!same_delivery(store.queue[oi], store.queue[oj]));
                assert(after.queue[i].issue_id == store.queue[oi].issue_id);
                assert(after.queue[i].recipient == store.queue[oi].recipient);
                assert(after.queue[j].issue_id == store.queue[oj].issue_id);
                assert(after.queue[j].recipient == store.queue[oj].recipient);
            }
        }
    }
}

/// Releasing a task keeps the store well formed.
pub proof fn lemma_release_task_wf(store: StoreView, task: TaskView)
    requires
        store.wf(),
    ensures
        store.release_task(task).wf(),
{
    let after = store.release_task(task);
    if exists|i: int| store.is_first_held(task, i) {
        assert(after.issues_in_order());
        assert(after.writes_in_order());
        assert(after.queue_in_order()) by {
            assert forall|i: int| 0 <= i < after.queue.len() implies is_settled(
                #[trigger] after.queue[i],
            ) && after.has_issue(after.queue[i].issue_id) by {
                assert(is_settled(store.queue[i]));
                assert(after.queue[i].issue_id == store.queue[i].issue_id);
                lemma_issue_kept(store, after, store.queue[i].issue_id);
            }
            assert forall|i: int, j: int| 0 <= i < j < after.queue.len() implies !same_delivery(
                #[trigger] after.queue[i],
                #[trigger] after.queue[j],
            ) by {
                assert(!same_delivery(store.queue[i], store.queue[j]));
            }
        }
    }
}

/// Every queue row is for an issue that can be looked up.
pub proof fn lemma_queued_issue_exists(store: StoreView, at: int)
    requires
        store.wf(),
        0 <= at < store.queue.len(),
    ensures
        store.issue(store.queue[at].issue_id) is Some,
        store.issue(store.queue[at].issue_id)->0.id == store.queue[at].issue_id,
{
    let id = store.queue[at].issue_id;
    assert(store.has_issue(id));
    let k = choose|k: int| 0 <= k < store.issues.len() && (#[trigger] store.issues[k]).id == id;
    assert forall|j: int| 0 <= j < k implies (#[trigger] store.issues[j]).id != id by {
        assert(store.issues[j].id != store.issues[k].id);
    }
    assert(store.is_first_issue(id, k));
    let first = choose|i: int| store.is_first_issue(id, i);
    assert(store.is_first_issue(id, first));
}

/// The issue of every task handed out can be looked up.
pub proof fn lemma_task_issue_exists(store: StoreView)
    requires
        store.wf(),
        store.next_task().1 is Some,
    ensures
        store.next_task().0.issue(store.next_task().1->0.issue_id) is Some,
        store.next_task().0.issue(store.next_task().1->0.issue_id)->0.id
            == store.next_task().1->0.issue_id,
{
    let at = choose|i: int| store.is_next_available(i);
    lemma_next_task_wf(store);
    lemma_queued_issue_exists(store.next_task().0, at);
}

} // verus!
