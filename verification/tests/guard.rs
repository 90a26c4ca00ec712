use zero2prod::authentication::middleware::UserId;
use zero2prod::idempotency::key::IdempotencyKey;
use zero2prod::idempotency::persistence::NextAction;
use zero2prod::response::HttpResponse;
use zero2prod::store::memory::{Store, Transaction};
use zero2prod::store::model::{StoreError, MAX_CLAIM_LIFETIME_SECS};

fn key(text: &str) -> IdempotencyKey {
    IdempotencyKey::parse(text.to_string()).expect("a valid key")
}

fn claim(store: &mut Store, actor: UserId, text: &str, now: u64) -> Transaction {
    match store.begin(actor, &key(text), now).expect("a store with room") {
        NextAction::StartProcessing(transaction) => transaction,
        other => panic!("expected the claim, got {:?}", other),
    }
}

fn same_response(a: &HttpResponse, b: &HttpResponse) -> bool {
    a.status_code.as_u16() == b.status_code.as_u16()
        && a.body == b.body
        && a.headers.len() == b.headers.len()
        && a.headers
            .iter()
            .zip(b.headers.iter())
            .all(|(x, y)| x.name == y.name && x.value == y.value)
}

#[test]
fn the_first_request_for_a_key_starts_processing() {
    let mut store = Store::new();
    let outcome = store.begin(UserId(1), &key("abc123"), 10).unwrap();
    assert!(matches!(outcome, NextAction::StartProcessing(_)));
}

#[test]
fn a_second_request_finds_the_claim_in_progress() {
    let mut store = Store::new();
    let _held = claim(&mut store, UserId(1), "abc123", 10);
    let outcome = store.begin(UserId(1), &key("abc123"), 11).unwrap();
    assert!(matches!(outcome, NextAction::InProgress));
}

#[test]
fn the_same_key_of_another_actor_is_another_claim() {
    let mut store = Store::new();
    let _held = claim(&mut store, UserId(1), "abc123", 10);
    let outcome = store.begin(UserId(2), &key("abc123"), 11).unwrap();
    assert!(matches!(outcome, NextAction::StartProcessing(_)));
}

#[test]
fn another_key_of_the_same_actor_is_another_claim() {
    let mut store = Store::new();
    let _held = claim(&mut store, UserId(1), "abc123", 10);
    let outcome = store.begin(UserId(1), &key("abc124"), 11).unwrap();
    assert!(matches!(outcome, NextAction::StartProcessing(_)));
}

#[test]
fn a_completed_command_returns_the_saved_response() {
    let mut store = Store::new();
    let transaction = claim(&mut store, UserId(1), "abc123", 10);
    let mut response = HttpResponse::redirect("/admin/newsletters");
    response.append_header("set-cookie".to_string(), b"flash=1".to_vec());
    response.body = b"published".to_vec();
    store.complete(transaction, response.clone()).unwrap();

    match store.begin(UserId(1), &key("abc123"), 10_000).unwrap() {
        NextAction::ReturnSavedResponse(saved) => {
            assert_eq!(saved.status_code.as_u16(), 303);
            assert_eq!(saved.headers.len(), 2);
            assert_eq!(saved.headers[0].name, "location");
            assert_eq!(saved.headers[0].value, b"/admin/newsletters".to_vec());
            assert_eq!(saved.headers[1].name, "set-cookie");
            assert_eq!(saved.headers[1].value, b"flash=1".to_vec());
            assert_eq!(saved.body, b"published".to_vec());
            assert!(same_response(&saved, &response));
        }
        other => panic!("expected the saved response, got {:?}", other),
    }
}

#[test]
fn the_saved_response_can_be_read_without_claiming() {
    let mut store = Store::new();
    assert!(store.saved_response(UserId(1), &key("abc123")).is_none());
    let transaction = claim(&mut store, UserId(1), "abc123", 10);
    assert!(store.saved_response(UserId(1), &key("abc123")).is_none());
    store
        .complete(transaction, HttpResponse::redirect("/admin/newsletters"))
        .unwrap();
    let saved = store.saved_response(UserId(1), &key("abc123")).unwrap();
    assert_eq!(saved.status_code.as_u16(), 303);
    assert!(store.saved_response(UserId(2), &key("abc123")).is_none());
}

#[test]
fn an_aborted_claim_can_be_claimed_again() {
    let mut store = Store::new();
    let transaction = claim(&mut store, UserId(1), "abc123", 10);
    store
        .enqueue(&transaction, "title", "text", "<p>html</p>", 10)
        .unwrap();
    store.abort(transaction);

    assert!(store.issues().is_empty());
    assert!(store.queue().is_empty());
    let outcome = store.begin(UserId(1), &key("abc123"), 11).unwrap();
    assert!(matches!(outcome, NextAction::StartProcessing(_)));
}

#[test]
fn completing_twice_fails_the_second_time() {
    let mut store = Store::new();
    let first = claim(&mut store, UserId(1), "abc123", 10);
    store.abort(first);
    let second = claim(&mut store, UserId(1), "abc123", 10);
    store
        .complete(second, HttpResponse::redirect("/a"))
        .unwrap();
    // A new claim on another key gets a new transaction; the old handles are gone.
    let third = claim(&mut store, UserId(1), "other", 10);
    store.abort(third);
    let fourth = claim(&mut store, UserId(1), "other", 10);
    store.abort(fourth);
    let outcome = store.begin(UserId(1), &key("abc123"), 12).unwrap();
    assert!(matches!(outcome, NextAction::ReturnSavedResponse(_)));
}

#[test]
fn a_claim_within_its_lifetime_is_not_taken_over() {
    let mut store = Store::new();
    let _held = claim(&mut store, UserId(1), "abc123", 100);
    let outcome = store
        .begin(UserId(1), &key("abc123"), 100 + MAX_CLAIM_LIFETIME_SECS)
        .unwrap();
    assert!(matches!(outcome, NextAction::InProgress));
    // A clock that runs backwards never expires a claim.
    let outcome = store.begin(UserId(1), &key("abc123"), 0).unwrap();
    assert!(matches!(outcome, NextAction::InProgress));
}

#[test]
fn an_expired_claim_is_taken_over_and_its_holder_cannot_commit() {
    let mut store = Store::new();
    let stale = claim(&mut store, UserId(1), "abc123", 100);
    store
        .enqueue(&stale, "stale title", "text", "<p>html</p>", 100)
        .unwrap();

    let fresh = claim(
        &mut store,
        UserId(1),
        "abc123",
        100 + MAX_CLAIM_LIFETIME_SECS + 1,
    );
    assert_eq!(
        store.enqueue(&stale, "again", "text", "<p>html</p>", 200),
        Err(StoreError::NoSuchTransaction)
    );
    assert_eq!(
        store.complete(stale, HttpResponse::redirect("/stale")),
        Err(StoreError::NoSuchTransaction)
    );
    assert!(store.issues().is_empty());

    store
        .enqueue(&fresh, "fresh title", "text", "<p>html</p>", 200)
        .unwrap();
    store
        .complete(fresh, HttpResponse::redirect("/fresh"))
        .unwrap();
    let issues = store.issues();
    assert_eq!(issues.len(), 1);
    assert_eq!(issues[0].title, "fresh title");
    match store.begin(UserId(1), &key("abc123"), 300).unwrap() {
        NextAction::ReturnSavedResponse(saved) => {
            assert_eq!(saved.headers[0].value, b"/fresh".to_vec());
        }
        other => panic!("expected the saved response, got {:?}", other),
    }
}

#[test]
fn nothing_written_in_a_transaction_is_visible_before_it_commits() {
    let mut store = Store::new();
    store
        .insert_subscriber(7, "ursula_le_guin@gmail.com", "le guin", 1)
        .unwrap();
    store.confirm_subscriber(7);
    let transaction = claim(&mut store, UserId(1), "abc123", 10);
    let issue_id = store
        .enqueue(&transaction, "title", "text", "<p>html</p>", 10)
        .unwrap();
    assert!(store.issues().is_empty());
    assert!(store.queue().is_empty());
    assert!(store.issue(issue_id).is_none());
    assert!(store.next_task().is_none());

    store
        .complete(transaction, HttpResponse::redirect("/admin/newsletters"))
        .unwrap();
    assert_eq!(store.issues().len(), 1);
    assert_eq!(store.queue().len(), 1);
    assert_eq!(store.issue(issue_id).unwrap().title, "title");
}

#[test]
fn store_errors_have_messages() {
    assert_eq!(
        StoreError::NoSuchTransaction.message(),
        "The transaction is not open"
    );
    assert_eq!(
        StoreError::Exhausted.message(),
        "The store has run out of identifiers"
    );
    assert_eq!(
        StoreError::DuplicateEmail.message(),
        "The email address is already subscribed"
    );
}

#[test]
fn a_transaction_writes_one_issue_and_no_more() {
    let mut store = Store::new();
    store.insert_subscriber(7, "a@x.org", "a", 1).unwrap();
    store.confirm_subscriber(7);
    let transaction = claim(&mut store, UserId(1), "abc123", 10);
    let first = store
        .enqueue(&transaction, "title", "text", "<p>html</p>", 10)
        .unwrap();
    assert_eq!(
        store.enqueue(&transaction, "again", "text", "<p>html</p>", 11),
        Err(StoreError::AlreadyEnqueued)
    );
    store
        .complete(transaction, HttpResponse::redirect("/admin/newsletters"))
        .unwrap();
    let issues = store.issues();
    assert_eq!(issues.len(), 1);
    assert_eq!(issues[0].id, first);
    assert_eq!(issues[0].title, "title");
    assert_eq!(store.queue().len(), 1);
    assert_eq!(
        StoreError::AlreadyEnqueued.message(),
        "The transaction has already written its issue"
    );
}

#[test]
fn issue_numbers_are_never_reused() {
    let mut store = Store::new();
    let first = claim(&mut store, UserId(1), "a", 10);
    let a = store.enqueue(&first, "a", "a", "a", 10).unwrap();
    store.abort(first);
    let second = claim(&mut store, UserId(1), "a", 11);
    let b = store.enqueue(&second, "b", "b", "b", 11).unwrap();
    store
        .complete(second, HttpResponse::redirect("/admin/newsletters"))
        .unwrap();
    assert_ne!(a, b);
    assert!(store.issue(a).is_none());
    assert_eq!(store.issue(b).unwrap().title, "b");
}
