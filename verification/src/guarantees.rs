//! What the service guarantees, proved over the store's model: requests
//! that race on one key agree on one response and publish one issue, a
//! completed command is replayed without running again, an aborted claim
//! frees its key, and the delivery queue retries what may pass and gives up
//! what will not.

use crate::response::ResponseView;
use crate::routes::admin::newsletters::post::{publish_step, CommandView, PhaseView};
use crate::store::model::{
    confirmed_emails, disposition_of, fan_out, is_available, ClaimKey, ClaimView,
    DeliveryOutcome, DeliveryState, Disposition, IssueView, QueueRowView, StoreError, StoreView,
    TaskView,
};
use crate::store::preservation::{
    lemma_abort_wf, lemma_begin_wf, lemma_complete_wf, lemma_enqueue_wf, lemma_fan_out_in_order,
    lemma_holder_is_unique,
};
use vstd::prelude::*;

verus! {

/// Several requests for one command, sharing one store.
pub struct RaceView {
    pub store: StoreView,
    /// How far each request has come.
    pub phases: Seq<PhaseView>,
}

/// Whose turn it is, and when.
pub struct Turn {
    pub who: int,
    pub now: u64,
}

/// The race before anyone has moved: `count` requests at their start.
pub open spec fn race_start(store: StoreView, count: nat) -> RaceView {
    RaceView { store, phases: Seq::new(count, |i: int| PhaseView::Start) }
}

/// One turn of the race: the request whose turn it is takes one step. The
/// request numbered `i` answers with `accepted[i]` if it is the one to run
/// the command.
pub open spec fn race_step(
    race: RaceView,
    command: CommandView,
    accepted: Seq<ResponseView>,
    turn: Turn,
) -> RaceView {
    if 0 <= turn.who < race.phases.len() {
        let (store, phase) = publish_step(
            race.store,
            command,
            race.phases[turn.who],
            accepted[turn.who],
            turn.now,
        );
        RaceView { store, phases: race.phases.update(turn.who, phase) }
    } else {
        race
    }
}

/// The race after every turn of `schedule`, in order.
pub open spec fn race_run(
    race: RaceView,
    command: CommandView,
    accepted: Seq<ResponseView>,
    schedule: Seq<Turn>,
) -> RaceView
    decreases schedule.len(),
{
    if schedule.len() == 0 {
        race
    } else {
        race_step(
            race_run(race, command, accepted, schedule.drop_last()),
            command,
            accepted,
            schedule.last(),
        )
    }
}

/// Whether `issue` holds what `command` publishes.
pub open spec fn carries(issue: IssueView, command: CommandView) -> bool {
    issue.command == command.claim && issue.title == command.title && issue.text_body
        == command.text && issue.html_body == command.html
}

/// The transaction a request in `phase` believes it holds, if any.
pub open spec fn held(phase: PhaseView) -> Option<u64> {
    match phase {
        PhaseView::Claimed(transaction) => Some(transaction),
        PhaseView::Enqueued(transaction, _) => Some(transaction),
        _ => None,
    }
}

/// Whether the store shows exactly the effect of the command having run
/// once since `before`: one more issue, carrying the command, and one queue
/// row for each subscriber confirmed in `before`.
pub open spec fn published_once(before: StoreView, store: StoreView, command: CommandView) -> bool {
    &&& store.issues.len() == before.issues.len() + 1
    &&& store.issues == before.issues.push(store.issues.last())
    &&& carries(store.issues.last(), command)
    &&& store.queue == before.queue + fan_out(
        store.issues.last().id,
        confirmed_emails(before.subscribers),
    )
}

/// What holds of a race at every instant.
spec fn race_inv(
    before: StoreView,
    command: CommandView,
    accepted: Seq<ResponseView>,
    race: RaceView,
) -> bool {
    let store = race.store;
    let claim = command.claim;
    &&& store.wf()
    &&& race.phases.len() == accepted.len()
    &&& store.subscribers == before.subscribers
    &&& forall|i: int|
        0 <= i < race.phases.len() && held(#[trigger] race.phases[i]) is Some ==> held(
            race.phases[i],
        )->0 < store.next_transaction
    &&& forall|i: int, j: int|
        0 <= i < race.phases.len() && 0 <= j < race.phases.len() && i != j && held(
            #[trigger] race.phases[i],
        ) is Some && held(#[trigger] race.phases[j]) is Some ==> held(race.phases[i]) != held(
            race.phases[j],
        )
    &&& forall|i: int|
        0 <= i < race.phases.len() && held(#[trigger] race.phases[i]) is Some
            && store.open.contains_key(held(race.phases[i])->0) ==> holds_its_work(
            before,
            store,
            command,
            race.phases[i],
        )
    &&& if store.saved.contains_key(claim) {
        &&& forall|i: int|
            0 <= i < race.phases.len() && (#[trigger] race.phases[i]) is Finished
                ==> race.phases[i]->Finished_0 == store.saved[claim]
        &&& published_once(before, store, command)
    } else {
        &&& forall|i: int| 0 <= i < race.phases.len() ==> !((#[trigger] race.phases[i]) is Finished)
        &&& store.issues == before.issues
        &&& store.queue == before.queue
    }
}

/// What the open transaction of a request in `phase` holds: the command's
/// claim, and either nothing yet or the one issue with its fan-out.
spec fn holds_its_work(
    before: StoreView,
    store: StoreView,
    command: CommandView,
    phase: PhaseView,
) -> bool {
    let transaction = store.open[held(phase)->0];
    &&& transaction.claim == command.claim
    &&& phase is Claimed ==> transaction.issue is None && transaction.deliveries == Seq::<
        QueueRowView,
    >::empty()
    &&& phase is Enqueued ==> transaction.issue is Some && carries(
        transaction.issue->0,
        command,
    ) && transaction.deliveries == fan_out(
        transaction.issue->0.id,
        confirmed_emails(before.subscribers),
    )
}

/// One turn of a race keeps what holds of it.
proof fn lemma_race_step_inv(
    before: StoreView,
    command: CommandView,
    accepted: Seq<ResponseView>,
    race: RaceView,
    turn: Turn,
)
    requires
        race_inv(before, command, accepted, race),
    ensures
        race_inv(before, command, accepted, race_step(race, command, accepted, turn)),
{
    let next = race_step(race, command, accepted, turn);
    if !(0 <= turn.who < race.phases.len()) {
        return ;
    }
    let who = turn.who;
    let now = turn.now;
    let store = race.store;
    let claim = command.claim;
    let phase = race.phases[who];
    assert(next.phases.len() == race.phases.len());
    assert forall|i: int| 0 <= i < race.phases.len() && i != who implies #[trigger] next.phases[i]
        == race.phases[i] by {}
    match phase {
        PhaseView::Start => {
            lemma_begin_wf(store, claim, now);
            let (after, outcome) = store.begin(claim, now);
            match outcome {
                Ok(ClaimView::StartProcessing(id)) => {
                    assert(id == store.next_transaction);
                    let freed = match store.holder(claim) {
                        Some(stale) => store.abort(stale),
                        None => store,
                    };
                    assert(after == freed.with_claim(claim, now));
                    assert(next.phases[who] == PhaseView::Claimed(id));
                    assert forall|i: int|
                        0 <= i < next.phases.len() && held(#[trigger] next.phases[i]) is Some
                            && after.open.contains_key(
                            held(next.phases[i])->0,
                        ) implies holds_its_work(before, after, command, next.phases[i]) by {
                        if i != who {
                            let t = held(race.phases[i])->0;
                            assert(t < store.next_transaction);
                            assert(freed.open.contains_key(t));
                            assert(store.open.contains_key(t));
                            assert(holds_its_work(before, store, command, race.phases[i]));
                            assert(after.open[t] == store.open[t]);
                        }
                    }
                    assert forall|i: int, j: int|
                        0 <= i < next.phases.len() && 0 <= j < next.phases.len() && i != j && held(
                            #[trigger] next.phases[i],
                        ) is Some && held(#[trigger] next.phases[j]) is Some implies held(
                        next.phases[i],
                    ) != held(next.phases[j]) by {
                        if i != who && j != who {
                            assert(held(race.phases[i]) != held(race.phases[j]));
                        } else if i == who {
                            assert(held(race.phases[j])->0 < store.next_transaction);
                        } else {
                            assert(held(race.phases[i])->0 < store.next_transaction);
                        }
                    }
                    assert(race_inv(before, command, accepted, next));
                },
                Ok(ClaimView::ReturnSavedResponse(response)) => {
                    assert(after == store);
                    assert(race_inv(before, command, accepted, next));
                },
                Ok(ClaimView::InProgress) => {
                    assert(after == store);
                    assert(next.phases =~= race.phases);
                    assert(race_inv(before, command, accepted, next));
                },
                Err(error) => {
                    assert(after == store);
                    assert(race_inv(before, command, accepted, next));
                },
            }
        },
        PhaseView::Claimed(transaction) => {
            lemma_enqueue_wf(store, transaction, command.title, command.text, command.html, now);
            let (after, outcome) = store.enqueue(
                transaction,
                command.title,
                command.text,
                command.html,
                now,
            );
            match outcome {
                Ok(issue_id) => {
                    assert(holds_its_work(before, store, command, phase));
                    assert(after.open[transaction].issue == Some(
                        IssueView {
                            id: store.next_issue,
                            command: claim,
                            title: command.title,
                            text_body: command.text,
                            html_body: command.html,
                            created_at: now,
                        },
                    ));
                    assert(holds_its_work(before, after, command, next.phases[who]));
                    assert forall|i: int|
                        0 <= i < next.phases.len() && held(#[trigger] next.phases[i]) is Some
                            && after.open.contains_key(
                            held(next.phases[i])->0,
                        ) implies holds_its_work(before, after, command, next.phases[i]) by {
                        if i != who {
                            let t = held(race.phases[i])->0;
                            assert(held(race.phases[i]) != held(race.phases[who]));
                            assert(store.open.contains_key(t));
                            assert(holds_its_work(before, store, command, race.phases[i]));
                            assert(after.open[t] == store.open[t]);
                        }
                    }
                    assert forall|i: int, j: int|
                        0 <= i < next.phases.len() && 0 <= j < next.phases.len() && i != j && held(
                            #[trigger] next.phases[i],
                        ) is Some && held(#[trigger] next.phases[j]) is Some implies held(
                        next.phases[i],
                    ) != held(next.phases[j]) by {
                        assert(held(next.phases[i]) == held(race.phases[i]));
                        assert(held(next.phases[j]) == held(race.phases[j]));
                    }
                    assert(!store.saved.contains_key(claim));
                    assert(race_inv(before, command, accepted, next));
                },
                Err(StoreError::NoSuchTransaction) => {
                    assert(after == store);
                    assert(race_inv(before, command, accepted, next));
                },
                Err(error) => {
                    assert(after == store);
                    lemma_abort_wf(store, transaction);
                    let rolled = store.abort(transaction);
                    assert(next.store == rolled);
                    assert forall|i: int|
                        0 <= i < next.phases.len() && held(#[trigger] next.phases[i]) is Some
                            && rolled.open.contains_key(
                            held(next.phases[i])->0,
                        ) implies holds_its_work(before, rolled, command, next.phases[i]) by {
                        let t = held(race.phases[i])->0;
                        assert(store.open.contains_key(t));
                        assert(holds_its_work(before, store, command, race.phases[i]));
                    }
                    assert(race_inv(before, command, accepted, next));
                },
            }
        },
        PhaseView::Enqueued(transaction, response) => {
            lemma_complete_wf(store, transaction, response);
            let (after, outcome) = store.complete(transaction, response);
            match outcome {
                Ok(_) => {
                    assert(holds_its_work(before, store, command, phase));
                    assert(!store.saved.contains_key(claim));
                    let written = store.open[transaction];
                    assert(after.issues =~= before.issues.push(written.issue->0));
                    assert(after.issues.last() == written.issue->0);
                    assert(published_once(before, after, command));
                    assert forall|i: int|
                        0 <= i < next.phases.len() && held(#[trigger] next.phases[i]) is Some
                            && after.open.contains_key(
                            held(next.phases[i])->0,
                        ) implies holds_its_work(before, after, command, next.phases[i]) by {
                        let t = held(race.phases[i])->0;
                        assert(store.open.contains_key(t));
                        assert(holds_its_work(before, store, command, race.phases[i]));
                    }
                    assert(race_inv(before, command, accepted, next));
                },
                Err(_) => {
                    assert(after == store);
                    assert(race_inv(before, command, accepted, next));
                },
            }
        },
        PhaseView::Finished(_) => {
            assert(next.phases =~= race.phases);
        },
        PhaseView::Failed(_) => {
            assert(next.phases =~= race.phases);
        },
    }
}

/// What holds of a race holds after every schedule.
proof fn lemma_race_run_inv(
    before: StoreView,
    command: CommandView,
    accepted: Seq<ResponseView>,
    schedule: Seq<Turn>,
)
    requires
        before.wf(),
        !before.saved.contains_key(command.claim),
    ensures
        race_inv(
            before,
            command,
            accepted,
            race_run(race_start(before, accepted.len()), command, accepted, schedule),
        ),
    decreases schedule.len(),
{
    if schedule.len() == 0 {
    } else {
        lemma_race_run_inv(before, command, accepted, schedule.drop_last());
        lemma_race_step_inv(
            before,
            command,
            accepted,
            race_run(race_start(before, accepted.len()), command, accepted, schedule.drop_last()),
            schedule.last(),
        );
    }
}

/// Requests that race on one key agree, and the command runs once.
///
/// Take any number of requests for the same command under a key that has
/// not been completed, and let them take their steps in any order, at any
/// times. Then at every instant all the requests that have been answered
/// hold the same response, which is the one saved under the key. If any has
/// been answered, the store holds exactly one more issue than before,
/// carrying the command, and exactly one more queue row for each subscriber
/// who was confirmed; if none has, issues and queue are as before.
pub proof fn lemma_racing_requests_agree(
    before: StoreView,
    command: CommandView,
    accepted: Seq<ResponseView>,
    schedule: Seq<Turn>,
)
    requires
        before.wf(),
        !before.saved.contains_key(command.claim),
    ensures
        ({
            let end = race_run(race_start(before, accepted.len()), command, accepted, schedule);
            &&& end.store.wf()
            &&& end.phases.len() == accepted.len()
            &&& forall|i: int, j: int|
                0 <= i < end.phases.len() && 0 <= j < end.phases.len() && (
                #[trigger] end.phases[i]) is Finished && (#[trigger] end.phases[j]) is Finished
                    ==> end.phases[i] == end.phases[j]
            &&& forall|i: int|
                0 <= i < end.phases.len() && (#[trigger] end.phases[i]) is Finished
                    ==> end.store.saved.contains_key(command.claim) && end.store.saved[command.claim]
                    == end.phases[i]->Finished_0
            &&& end.store.saved.contains_key(command.claim) ==> published_once(
                before,
                end.store,
                command,
            )
            &&& !end.store.saved.contains_key(command.claim) ==> end.store.issues == before.issues
                && end.store.queue == before.queue
        }),
{
    lemma_race_run_inv(before, command, accepted, schedule);
}

/// While the store has numbers left, no racing request fails.
///
/// A request stops on a storage error only when the store has run out of
/// transaction or issue numbers. Each turn uses up at most one of each, so
/// a race that starts with more of both left than it has turns ends with
/// no request failed.
pub proof fn lemma_racing_requests_do_not_fail(
    before: StoreView,
    command: CommandView,
    accepted: Seq<ResponseView>,
    schedule: Seq<Turn>,
)
    requires
        before.wf(),
        !before.saved.contains_key(command.claim),
        before.next_transaction + schedule.len() < u64::MAX,
        before.next_issue + schedule.len() < u64::MAX,
    ensures
        ({
            let end = race_run(race_start(before, accepted.len()), command, accepted, schedule);
            &&& end.store.next_transaction <= before.next_transaction + schedule.len()
            &&& end.store.next_issue <= before.next_issue + schedule.len()
            &&& forall|i: int|
                0 <= i < end.phases.len() ==> !((#[trigger] end.phases[i]) is Failed)
        }),
    decreases schedule.len(),
{
    if schedule.len() > 0 {
        let earlier = schedule.drop_last();
        let turn = schedule.last();
        lemma_racing_requests_do_not_fail(before, command, accepted, earlier);
        lemma_race_run_inv(before, command, accepted, earlier);
        let race = race_run(race_start(before, accepted.len()), command, accepted, earlier);
        let end = race_step(race, command, accepted, turn);
        if 0 <= turn.who < race.phases.len() {
            let phase = race.phases[turn.who];
            if phase is Claimed {
                if race.store.open.contains_key(held(phase)->0) {
                    assert(holds_its_work(before, race.store, command, phase));
                }
            }
            assert forall|i: int| 0 <= i < end.phases.len() implies !((
            #[trigger] end.phases[i]) is Failed) by {
                if i != turn.who {
                    assert(end.phases[i] == race.phases[i]);
                }
            }
        }
    }
}

/// Requests that race on a key whose command has completed are all
/// replayed. Whatever the order of their steps, the store stays exactly as
/// it was, and every request that has been answered holds the response
/// saved before the race began.
pub proof fn lemma_racing_requests_replay(
    before: StoreView,
    command: CommandView,
    accepted: Seq<ResponseView>,
    schedule: Seq<Turn>,
)
    requires
        before.saved.contains_key(command.claim),
    ensures
        ({
            let end = race_run(race_start(before, accepted.len()), command, accepted, schedule);
            &&& end.store == before
            &&& end.phases.len() == accepted.len()
            &&& forall|i: int|
                0 <= i < end.phases.len() ==> (#[trigger] end.phases[i]) == PhaseView::Start
                    || end.phases[i] == PhaseView::Finished(before.saved[command.claim])
        }),
    decreases schedule.len(),
{
    if schedule.len() > 0 {
        let earlier = schedule.drop_last();
        let turn = schedule.last();
        lemma_racing_requests_replay(before, command, accepted, earlier);
        let race = race_run(race_start(before, accepted.len()), command, accepted, earlier);
        let end = race_step(race, command, accepted, turn);
        if 0 <= turn.who < race.phases.len() {
            assert forall|i: int| 0 <= i < end.phases.len() implies (#[trigger] end.phases[i])
                == PhaseView::Start || end.phases[i] == PhaseView::Finished(
                before.saved[command.claim],
            ) by {
                if i != turn.who {
                    assert(end.phases[i] == race.phases[i]);
                }
            }
        }
    }
}

/// Two requests never hold the same claim. Once a request has been handed
/// a claim, every other request for the key within the claim's lifetime is
/// told that the command is in progress, and the store is left as it was.
pub proof fn lemma_claims_exclude_each_other(store: StoreView, claim: ClaimKey, first: u64, then: u64)
    requires
        store.wf(),
        store.begin(claim, first).1 matches Ok(ClaimView::StartProcessing(_)),
        then - first <= crate::store::model::MAX_CLAIM_LIFETIME_SECS,
    ensures
        ({
            let claimed = store.begin(claim, first).0;
            claimed.begin(claim, then) == (
                claimed,
                Ok::<ClaimView, StoreError>(ClaimView::InProgress),
            )
        }),
{
    let claimed = store.begin(claim, first).0;
    lemma_begin_wf(store, claim, first);
    assert(claimed.holds(store.next_transaction, claim));
    lemma_holder_is_unique(claimed, store.next_transaction, claim);
}

/// A completed command is replayed, not run again: a request for its key is
/// answered with the saved response, whenever it comes, and the store is
/// left exactly as it was.
pub proof fn lemma_completed_command_is_replayed(store: StoreView, claim: ClaimKey, now: u64)
    requires
        store.saved.contains_key(claim),
    ensures
        store.begin(claim, now) == (
            store,
            Ok::<ClaimView, StoreError>(ClaimView::ReturnSavedResponse(store.saved[claim])),
        ),
{
}

/// The response handed to `complete` is the response saved: after the
/// commit, a request for the same key gets back exactly what was passed in,
/// status, headers and body.
pub proof fn lemma_saved_response_round_trip(
    store: StoreView,
    transaction: u64,
    response: ResponseView,
    now: u64,
)
    requires
        store.open.contains_key(transaction),
    ensures
        ({
            let claim = store.open[transaction].claim;
            let committed = store.complete(transaction, response).0;
            &&& store.complete(transaction, response).1 == Ok::<(), StoreError>(())
            &&& committed.begin(claim, now) == (
                committed,
                Ok::<ClaimView, StoreError>(ClaimView::ReturnSavedResponse(response)),
            )
        }),
{
}

/// Submitting a command twice in a row runs it once.
///
/// On a store with room for one more transaction and one more issue, a
/// request for a key that is neither completed nor claimed finishes in
/// three steps with its own response, having published exactly once. A
/// second request for the same command then finishes in one step with that
/// same response, whatever it would have answered itself, and leaves the
/// store untouched: no second issue, no further queue rows.
pub proof fn lemma_second_submission_is_replayed(
    before: StoreView,
    command: CommandView,
    first: ResponseView,
    second: ResponseView,
    times: Seq<u64>,
)
    requires
        before.wf(),
        !before.saved.contains_key(command.claim),
        before.holder(command.claim) is None,
        before.next_transaction < u64::MAX,
        before.next_issue < u64::MAX,
        times.len() == 4,
    ensures
        ({
            let (claimed, phase1) = publish_step(before, command, PhaseView::Start, first, times[0]);
            let (written, phase2) = publish_step(claimed, command, phase1, first, times[1]);
            let (done, phase3) = publish_step(written, command, phase2, first, times[2]);
            let (again, phase4) = publish_step(done, command, PhaseView::Start, second, times[3]);
            &&& phase3 == PhaseView::Finished(first)
            &&& published_once(before, done, command)
            &&& phase4 == PhaseView::Finished(first)
            &&& again == done
        }),
{
    let (claimed, phase1) = publish_step(before, command, PhaseView::Start, first, times[0]);
    let id = before.next_transaction;
    assert(phase1 == PhaseView::Claimed(id));
    assert(claimed.open.contains_key(id));
    let (written, phase2) = publish_step(claimed, command, phase1, first, times[1]);
    assert(phase2 == PhaseView::Enqueued(id, first));
    assert(written.open.contains_key(id));
    let (done, phase3) = publish_step(written, command, phase2, first, times[2]);
    assert(written.open[id].issue == Some(
        IssueView {
            id: before.next_issue,
            command: command.claim,
            title: command.title,
            text_body: command.text,
            html_body: command.html,
            created_at: times[1],
        },
    ));
    assert(done.issues =~= before.issues.push(written.open[id].issue->0));
    assert(done.saved.contains_key(command.claim));
}

/// A claim whose holder rolls back is free again at once. Nothing the
/// transaction wrote remains, no response is saved, no one holds the claim,
/// and, while the store has transaction numbers left, the next request for
/// the key is the one to run the command.
pub proof fn lemma_aborted_claim_is_free(store: StoreView, transaction: u64, now: u64)
    requires
        store.wf(),
        store.open.contains_key(transaction),
    ensures
        ({
            let claim = store.open[transaction].claim;
            let rolled = store.abort(transaction);
            &&& rolled.wf()
            &&& rolled.issues == store.issues
            &&& rolled.queue == store.queue
            &&& rolled.saved == store.saved
            &&& !rolled.saved.contains_key(claim)
            &&& rolled.holder(claim) is None
            &&& store.next_transaction < u64::MAX ==> rolled.begin(claim, now).1 == Ok::<
                ClaimView,
                StoreError,
            >(ClaimView::StartProcessing(store.next_transaction))
        }),
{
    let claim = store.open[transaction].claim;
    let rolled = store.abort(transaction);
    lemma_abort_wf(store, transaction);
    if rolled.holder(claim) is Some {
        let other = rolled.holder(claim)->0;
        assert(rolled.holds(other, claim));
        assert(store.holds(other, claim));
        assert(store.open[other].claim != store.open[transaction].claim);
    }
}

/// No claim blocks its key for ever. Once a claim has outlived its
/// lifetime, the next request for the key takes it over, while the store
/// has transaction numbers left: the request is told to run the command,
/// the stale transaction is rolled back with all it wrote, and its handle
/// can no longer commit anything.
pub proof fn lemma_expired_claim_is_taken_over(
    store: StoreView,
    stale: u64,
    response: ResponseView,
    now: u64,
)
    requires
        store.wf(),
        store.open.contains_key(stale),
        now - store.open[stale].claimed_at > crate::store::model::MAX_CLAIM_LIFETIME_SECS,
        store.next_transaction < u64::MAX,
    ensures
        ({
            let claim = store.open[stale].claim;
            let (after, outcome) = store.begin(claim, now);
            &&& outcome == Ok::<ClaimView, StoreError>(
                ClaimView::StartProcessing(store.next_transaction),
            )
            &&& !after.open.contains_key(stale)
            &&& after.issues == store.issues
            &&& after.queue == store.queue
            &&& after.complete(stale, response) == (
                after,
                Err::<(), StoreError>(StoreError::NoSuchTransaction),
            )
        }),
{
    let claim = store.open[stale].claim;
    assert(store.holds(stale, claim));
    lemma_holder_is_unique(store, stale, claim);
}

/// A worker is never handed a failed row: the row behind every task was
/// pending and held by no one.
pub proof fn lemma_only_pending_rows_are_handed_out(store: StoreView)
    ensures
        match store.next_task().1 {
            Some(task) => exists|i: int|
                0 <= i < store.queue.len() && is_available(#[trigger] store.queue[i])
                    && store.queue[i].state == DeliveryState::Pending && task == (TaskView {
                    issue_id: store.queue[i].issue_id,
                    recipient: store.queue[i].recipient,
                    attempts: store.queue[i].attempts,
                }) && store.next_task().0.queue == store.queue.update(
                    i,
                    QueueRowView { locked: true, ..store.queue[i] },
                ),
            None => forall|i: int|
                0 <= i < store.queue.len() ==> !is_available(#[trigger] store.queue[i]),
        },
{
    if exists|i: int| store.is_next_available(i) {
        let i = choose|i: int| store.is_next_available(i);
        assert(is_available(store.queue[i]));
    } else {
        lemma_first_available(store, store.queue.len() as int);
    }
}

/// If some row among the first `upto` is available, one of them is the
/// first available row.
proof fn lemma_first_available(store: StoreView, upto: int)
    requires
        0 <= upto <= store.queue.len(),
        !exists|i: int| store.is_next_available(i),
    ensures
        forall|i: int| 0 <= i < upto ==> !is_available(#[trigger] store.queue[i]),
    decreases upto,
{
    if upto > 0 {
        lemma_first_available(store, upto - 1);
        if is_available(store.queue[upto - 1]) {
            assert(store.is_next_available(upto - 1));
        }
    }
}

/// A delivery that fails in a way that may pass is tried again. After a
/// transient failure that is not the last one allowed, the row is still in
/// its place in the queue, pending, held by no one, with one more attempt
/// counted; so the next worker to ask is handed a task.
pub proof fn lemma_transient_failure_is_retried(store: StoreView, task: TaskView, at: int)
    requires
        store.wf(),
        store.is_first_held(task, at),
        disposition_of(store.queue[at].attempts, DeliveryOutcome::TransientFailure)
            == Disposition::Retry,
    ensures
        ({
            let after = store.finish_task(task, DeliveryOutcome::TransientFailure);
            &&& after.queue == store.queue.update(
                at,
                QueueRowView {
                    attempts: (store.queue[at].attempts + 1) as u32,
                    locked: false,
                    ..store.queue[at]
                },
            )
            &&& after.queue[at].state == DeliveryState::Pending
            &&& is_available(after.queue[at])
            &&& after.next_task().1 is Some
        }),
{
    let chosen = choose|i: int| store.is_first_held(task, i);
    assert(store.is_first_held(task, chosen));
    assert(chosen == at);
    let after = store.finish_task(task, DeliveryOutcome::TransientFailure);
    assert(crate::store::model::is_settled(store.queue[at]));
    assert(is_available(after.queue[at]));
    if !exists|i: int| after.is_next_available(i) {
        lemma_first_available(after, after.queue.len() as int);
    }
}

/// A delivery that fails for good is given up. After a permanent failure,
/// or after the last transient failure allowed, the row is still in its
/// place in the queue, marked failed and held by no one, with its count of
/// attempts as it was.
pub proof fn lemma_final_failure_is_terminal(
    store: StoreView,
    task: TaskView,
    outcome: DeliveryOutcome,
    at: int,
)
    requires
        store.is_first_held(task, at),
        disposition_of(store.queue[at].attempts, outcome) == Disposition::Fail,
    ensures
        outcome != DeliveryOutcome::Delivered,
        outcome == DeliveryOutcome::TransientFailure ==> store.queue[at].attempts + 1
            >= crate::store::model::MAX_DELIVERY_ATTEMPTS,
        store.finish_task(task, outcome).queue == store.queue.update(
            at,
            QueueRowView { state: DeliveryState::Failed, locked: false, ..store.queue[at] },
        ),
        !is_available(store.finish_task(task, outcome).queue[at]),
{
    let chosen = choose|i: int| store.is_first_held(task, i);
    assert(store.is_first_held(task, chosen));
    assert(chosen == at);
}

/// A failed row is never retried and never goes away. Whatever a worker
/// does next, ask for work, settle a task with any outcome or release one,
/// every failed row is still in the queue afterwards, unchanged, and it is
/// not the row handed out.
pub proof fn lemma_failed_rows_are_left_alone(
    store: StoreView,
    task: TaskView,
    outcome: DeliveryOutcome,
    at: int,
)
    requires
        store.wf(),
        0 <= at < store.queue.len(),
        store.queue[at].state == DeliveryState::Failed,
    ensures
        store.next_task().0.queue[at] == store.queue[at],
        store.next_task().0.queue.len() == store.queue.len(),
        store.release_task(task).queue[at] == store.queue[at],
        store.release_task(task).queue.len() == store.queue.len(),
        ({
            let after = store.finish_task(task, outcome);
            exists|j: int|
                0 <= j < after.queue.len() && at - 1 <= j <= at && #[trigger] after.queue[j]
                    == store.queue[at]
        }),
{
    if exists|i: int| store.is_next_available(i) {
        let i = choose|i: int| store.is_next_available(i);
        assert(store.is_next_available(i));
        assert(i != at);
    }
    let after = store.finish_task(task, outcome);
    assert(crate::store::model::is_settled(store.queue[at]));
    if exists|i: int| store.is_first_held(task, i) {
        let i = choose|i: int| store.is_first_held(task, i);
        assert(store.is_first_held(task, i));
        assert(i != at);
        match disposition_of(store.queue[i].attempts, outcome) {
            Disposition::Delete => {
                if i < at {
                    assert(after.queue[at - 1] == store.queue[at]);
                } else {
                    assert(after.queue[at] == store.queue[at]);
                }
            },
            Disposition::Retry => {
                assert(after.queue[at] == store.queue[at]);
            },
            Disposition::Fail => {
                assert(after.queue[at] == store.queue[at]);
            },
        }
    } else {
        assert(after.queue[at] == store.queue[at]);
    }
}

/// A delivered email leaves the queue: the row the worker held is deleted,
/// and every other row stays as it was.
pub proof fn lemma_delivery_removes_the_row(store: StoreView, task: TaskView, at: int)
    requires
        store.is_first_held(task, at),
    ensures
        store.finish_task(task, DeliveryOutcome::Delivered).queue == store.queue.remove(at),
{
    let chosen = choose|i: int| store.is_first_held(task, i);
    assert(store.is_first_held(task, chosen));
    assert(chosen == at);
}

/// The fan-out is a snapshot. Confirming a subscriber after an issue has
/// been enqueued adds no delivery for it: the queue, the issues and what
/// every open transaction has written stay as they were.
pub proof fn lemma_later_confirmation_adds_no_delivery(store: StoreView, subscriber: u128)
    ensures
        store.confirm_subscriber(subscriber).queue == store.queue,
        store.confirm_subscriber(subscriber).issues == store.issues,
        store.confirm_subscriber(subscriber).open == store.open,
        store.confirm_subscriber(subscriber).saved == store.saved,
{
}

/// Publishing sends to no address twice: in a well-formed store the
/// confirmed addresses are all different, so the fan-out of an issue holds
/// one row for each recipient and no more.
pub proof fn lemma_fan_out_has_no_duplicates(store: StoreView, issue_id: u64)
    requires
        store.wf(),
    ensures
        ({
            let rows = fan_out(issue_id, confirmed_emails(store.subscribers));
            forall|i: int, j: int|
                0 <= i < j < rows.len() ==> (#[trigger] rows[i]).recipient != (
                #[trigger] rows[j]).recipient
        }),
{
    lemma_fan_out_in_order(store, issue_id);
}

/// A command has at most one issue and one fan-out, whoever runs it and
/// however often. In a well-formed store no two issues were published by
/// the same command, every issue was published by a completed command,
/// every queue row belongs to an issue, and no issue is owed twice to the
/// same recipient.
pub proof fn lemma_one_issue_per_command(store: StoreView)
    requires
        store.wf(),
    ensures
        forall|i: int, j: int|
            0 <= i < j < store.issues.len() ==> (#[trigger] store.issues[i]).command != (
            #[trigger] store.issues[j]).command,
        forall|i: int|
            0 <= i < store.issues.len() ==> store.saved.contains_key(
                (#[trigger] store.issues[i]).command,
            ),
        forall|i: int|
            0 <= i < store.queue.len() ==> store.has_issue((#[trigger] store.queue[i]).issue_id),
        forall|i: int, j: int|
            0 <= i < j < store.queue.len() ==> !((#[trigger] store.queue[i]).issue_id == (
            #[trigger] store.queue[j]).issue_id && store.queue[i].recipient
                == store.queue[j].recipient),
{
    assert forall|i: int, j: int| 0 <= i < j < store.queue.len() implies !((
    #[trigger] store.queue[i]).issue_id == (#[trigger] store.queue[j]).issue_id
        && store.queue[i].recipient == store.queue[j].recipient) by {
        assert(!crate::store::model::same_delivery(store.queue[i], store.queue[j]));
    }
}

/// Every operation of the store, with what it is given.
pub enum Operation {
    InsertSubscriber { id: u128, email: Seq<char>, name: Seq<char>, now: u64 },
    StoreToken { subscriber_id: u128, token: Seq<char> },
    ConfirmSubscriber { id: u128 },
    Begin { claim: ClaimKey, now: u64 },
    Enqueue { transaction: u64, title: Seq<char>, text_body: Seq<char>, html_body: Seq<char>, now: u64 },
    Complete { transaction: u64, response: ResponseView },
    Abort { transaction: u64 },
    NextTask,
    FinishTask { task: TaskView, outcome: DeliveryOutcome },
    ReleaseTask { task: TaskView },
}

/// The store after `operation`.
pub open spec fn apply(store: StoreView, operation: Operation) -> StoreView {
    match operation {
        Operation::InsertSubscriber { id, email, name, now } => store.insert_subscriber(
            id,
            email,
            name,
            now,
        ).0,
        Operation::StoreToken { subscriber_id, token } => store.store_token(subscriber_id, token),
        Operation::ConfirmSubscriber { id } => store.confirm_subscriber(id),
        Operation::Begin { claim, now } => store.begin(claim, now).0,
        Operation::Enqueue { transaction, title, text_body, html_body, now } => store.enqueue(
            transaction,
            title,
            text_body,
            html_body,
            now,
        ).0,
        Operation::Complete { transaction, response } => store.complete(transaction, response).0,
        Operation::Abort { transaction } => store.abort(transaction),
        Operation::NextTask => store.next_task().0,
        Operation::FinishTask { task, outcome } => store.finish_task(task, outcome),
        Operation::ReleaseTask { task } => store.release_task(task),
    }
}

/// The store after every operation of `history`, in order, starting from
/// the empty store.
pub open spec fn store_after(history: Seq<Operation>) -> StoreView
    decreases history.len(),
{
    if history.len() == 0 {
        StoreView::empty()
    } else {
        apply(store_after(history.drop_last()), history.last())
    }
}

/// Every operation keeps the store well formed.
pub proof fn lemma_every_operation_keeps_the_store_in_order(store: StoreView, operation: Operation)
    requires
        store.wf(),
    ensures
        apply(store, operation).wf(),
{
    match operation {
        Operation::InsertSubscriber { id, email, name, now } => {
            crate::store::preservation::lemma_insert_subscriber_wf(store, id, email, name, now);
        },
        Operation::StoreToken { subscriber_id, token } => {
            crate::store::preservation::lemma_store_token_wf(store, subscriber_id, token);
        },
        Operation::ConfirmSubscriber { id } => {
            crate::store::preservation::lemma_confirm_subscriber_wf(store, id);
        },
        Operation::Begin { claim, now } => {
            lemma_begin_wf(store, claim, now);
        },
        Operation::Enqueue { transaction, title, text_body, html_body, now } => {
            lemma_enqueue_wf(store, transaction, title, text_body, html_body, now);
        },
        Operation::Complete { transaction, response } => {
            lemma_complete_wf(store, transaction, response);
        },
        Operation::Abort { transaction } => {
            lemma_abort_wf(store, transaction);
        },
        Operation::NextTask => {
            crate::store::preservation::lemma_next_task_wf(store);
        },
        Operation::FinishTask { task, outcome } => {
            crate::store::preservation::lemma_finish_task_wf(store, task, outcome);
        },
        Operation::ReleaseTask { task } => {
            crate::store::preservation::lemma_release_task_wf(store, task);
        },
    }
}

/// Whatever has been done to it, the store is well formed: in particular
/// no command has two issues or two fan-outs, and no two open transactions
/// hold the same claim.
pub proof fn lemma_the_store_is_always_in_order(history: Seq<Operation>)
    ensures
        store_after(history).wf(),
    decreases history.len(),
{
    if history.len() == 0 {
        crate::store::preservation::lemma_empty_wf();
    } else {
        lemma_the_store_is_always_in_order(history.drop_last());
        lemma_every_operation_keeps_the_store_in_order(
            store_after(history.drop_last()),
            history.last(),
        );
    }
}

/// A saved response is for ever. No operation removes or changes it: once
/// a command has completed, every later state of the store holds the same
/// response under its key.
pub proof fn lemma_saved_responses_are_kept(
    store: StoreView,
    operation: Operation,
    claim: ClaimKey,
)
    requires
        store.wf(),
        store.saved.contains_key(claim),
    ensures
        apply(store, operation).saved.contains_key(claim),
        apply(store, operation).saved[claim] == store.saved[claim],
{
    match operation {
        Operation::Complete { transaction, response } => {
            if store.open.contains_key(transaction) {
                assert(!store.saved.contains_key(store.open[transaction].claim));
            }
        },
        _ => {},
    }
}

/// An issue is never changed and never deleted. No operation touches the
/// issues already committed; the only one that adds to them is the commit
/// of the transaction that wrote the new issue.
pub proof fn lemma_issues_are_kept(store: StoreView, operation: Operation, at: int)
    requires
        0 <= at < store.issues.len(),
    ensures
        at < apply(store, operation).issues.len(),
        apply(store, operation).issues[at] == store.issues[at],
        !(operation is Complete) ==> apply(store, operation).issues == store.issues,
{
}

/// Only the worker changes or deletes a queue row. Every other operation
/// leaves each row where it is and as it is; the only one of them that
/// adds rows is the commit of the transaction that wrote them.
pub proof fn lemma_only_the_worker_touches_queue_rows(
    store: StoreView,
    operation: Operation,
    at: int,
)
    requires
        0 <= at < store.queue.len(),
        !(operation is NextTask),
        !(operation is FinishTask),
        !(operation is ReleaseTask),
    ensures
        at < apply(store, operation).queue.len(),
        apply(store, operation).queue[at] == store.queue[at],
        !(operation is Complete) ==> apply(store, operation).queue == store.queue,
{
}

/// Only the guard writes saved responses, and only by committing: every
/// operation but the commit of an open transaction leaves them all as they
/// are.
pub proof fn lemma_only_the_guard_saves_responses(store: StoreView, operation: Operation)
    requires
        !(operation is Complete),
    ensures
        apply(store, operation).saved == store.saved,
{
}

/// A row that a worker holds is handed to no other worker: asking for work
/// again yields a row for another delivery, or none, until the row is
/// settled or released.
pub proof fn lemma_held_row_is_not_handed_out_again(store: StoreView)
    requires
        store.wf(),
        store.next_task().1 is Some,
    ensures
        ({
            let (locked, first) = store.next_task();
            let second = locked.next_task().1;
            second is Some ==> !(second->0.issue_id == first->0.issue_id && second->0.recipient
                == first->0.recipient)
        }),
{
    let (locked, first) = store.next_task();
    let at = choose|i: int| store.is_next_available(i);
    assert(store.is_next_available(at));
    if locked.next_task().1 is Some {
        let then = choose|i: int| locked.is_next_available(i);
        assert(locked.is_next_available(then));
        assert(then != at);
        assert(is_available(store.queue[then]));
        assert(at < then);
        assert(!crate::store::model::same_delivery(store.queue[at], store.queue[then]));
    }
}

} // verus!
