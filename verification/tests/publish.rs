use zero2prod::authentication::middleware::UserId;
use zero2prod::delivery::{next_delivery, record_delivery, Delivery};
use zero2prod::flash::{Level, Reply};
use zero2prod::idempotency::key::KeyError;
use zero2prod::response::HttpResponse;
use zero2prod::idempotency::persistence::NextAction;
use zero2prod::routes::admin::newsletters::post::{
    accepted, after_claim, after_complete, after_enqueue, failure_of, publish_newsletter,
    publish_newsletter_at, Failure, NewsletterFormData, PublishError, PublishPhase, PublishTask,
    Step,
};
use zero2prod::store::model::StoreError;
use zero2prod::routes::subscriptions_confirm::{confirm, Parameters};
use zero2prod::store::memory::Store;
use zero2prod::store::model::DeliveryState;

fn form(idempotency_key: &str) -> NewsletterFormData {
    NewsletterFormData {
        title: "Newsletter title".to_string(),
        text: "Newsletter body as plain text".to_string(),
        html: "<p>Newsletter body as HTML</p>".to_string(),
        idempotency_key: idempotency_key.to_string(),
    }
}

fn create_unconfirmed_subscriber(store: &mut Store, id: u128, email: &str, token: &str) {
    store.insert_subscriber(id, email, "le guin", 1).unwrap();
    store.store_token(id, token);
}

fn create_confirmed_subscriber(store: &mut Store, id: u128, email: &str, token: &str) {
    create_unconfirmed_subscriber(store, id, email, token);
    let status = confirm(
        store,
        &Parameters {
            subscription_token: token.to_string(),
        },
    );
    assert_eq!(status.as_u16(), 200);
}

fn assert_is_redirect_to(response: &HttpResponse, location: &str) {
    assert_eq!(response.status_code.as_u16(), 303);
    let found = response
        .headers
        .iter()
        .find(|header| header.name == "location")
        .expect("a location header");
    assert_eq!(found.value, location.as_bytes().to_vec());
}

fn assert_is_published(reply: &Reply) {
    assert_is_redirect_to(&reply.response, "/admin/newsletters");
    let flash = reply.flash.as_ref().expect("a flash message");
    assert_eq!(flash.level, Level::Info);
    assert_eq!(flash.message, "The newsletter has been published.");
}

fn same_response(a: &HttpResponse, b: &HttpResponse) -> bool {
    a.status_code.as_u16() == b.status_code.as_u16()
        && a.body == b.body
        && a.headers.len() == b.headers.len()
        && a.headers
            .iter()
            .zip(b.headers.iter())
            .all(|(x, y)| x.name == y.name && x.value == y.value)
}

/// Drains the queue with a mail service that accepts everything, and says
/// who was sent what how often.
fn deliver_all(store: &mut Store) -> Vec<(String, String)> {
    let mut sent = Vec::new();
    loop {
        match next_delivery(store) {
            Delivery::Idle => return sent,
            Delivery::Skipped => {}
            Delivery::Send(task, email) => {
                sent.push((email.recipient.clone(), email.subject.clone()));
                record_delivery(store, &task, Ok(()));
            }
        }
    }
}

#[test]
fn newsletters_are_not_delivered_to_unconfirmed_subscribers() {
    let mut store = Store::new();
    create_unconfirmed_subscriber(&mut store, 1, "ursula_le_guin@gmail.com", "token-1");

    let reply = publish_newsletter(&mut store, UserId(9), form("5f0c8f0e-key"))
        .unwrap()
        .expect("an answer");

    assert_is_published(&reply);
    assert_eq!(store.issues().len(), 1);
    assert!(store.queue().is_empty());
    assert!(deliver_all(&mut store).is_empty());
}

#[test]
fn newsletters_are_delivered_to_confirmed_subscribers() {
    let mut store = Store::new();
    create_confirmed_subscriber(&mut store, 1, "ursula_le_guin@gmail.com", "token-1");

    let reply = publish_newsletter(&mut store, UserId(9), form("5f0c8f0e-key"))
        .unwrap()
        .expect("an answer");

    assert_is_published(&reply);
    let sent = deliver_all(&mut store);
    assert_eq!(
        sent,
        vec![(
            "ursula_le_guin@gmail.com".to_string(),
            "Newsletter title".to_string()
        )]
    );
    assert!(store.queue().is_empty());
}

#[test]
fn newsletter_creation_is_idempotent() {
    let mut store = Store::new();
    create_confirmed_subscriber(&mut store, 1, "ursula_le_guin@gmail.com", "token-1");

    let first = publish_newsletter_at(&mut store, UserId(9), form("5f0c8f0e-key"), 100)
        .unwrap()
        .expect("an answer");
    assert_is_published(&first);

    let second = publish_newsletter_at(&mut store, UserId(9), form("5f0c8f0e-key"), 5_000)
        .unwrap()
        .expect("an answer");
    assert_is_published(&second);
    assert!(same_response(&first.response, &second.response));

    assert_eq!(store.issues().len(), 1);
    assert_eq!(store.queue().len(), 1);
    assert_eq!(deliver_all(&mut store).len(), 1);
}

#[test]
fn concurrent_form_submission_is_handled_gracefully() {
    let mut store = Store::new();
    create_confirmed_subscriber(&mut store, 1, "ursula_le_guin@gmail.com", "token-1");

    let mut first = PublishTask::new(UserId(9), form("abc123"), accepted()).unwrap();
    let mut second = PublishTask::new(UserId(9), form("abc123"), accepted()).unwrap();

    // Both arrive before either has finished.
    first = first.step(&mut store, 10);
    second = second.step(&mut store, 10);
    assert!(matches!(first.phase, PublishPhase::Claimed(_)));
    assert!(matches!(second.phase, PublishPhase::Start));
    first = first.step(&mut store, 11);
    second = second.step(&mut store, 11);
    assert!(matches!(first.phase, PublishPhase::Enqueued(_, _)));
    assert!(matches!(second.phase, PublishPhase::Start));
    first = first.step(&mut store, 12);
    second = second.step(&mut store, 12);

    let (response1, response2) = match (first.phase, second.phase) {
        (PublishPhase::Finished(a), PublishPhase::Finished(b)) => (a, b),
        other => panic!("both requests should be answered, got {:?}", other),
    };
    assert_eq!(response1.status_code.as_u16(), response2.status_code.as_u16());
    assert_eq!(response1.body, response2.body);
    assert!(same_response(&response1, &response2));
    assert_eq!(response1.status_code.as_u16(), 303);

    assert_eq!(store.issues().len(), 1);
    assert_eq!(deliver_all(&mut store).len(), 1);
}

#[test]
fn two_racing_requests_with_key_abc123_send_one_email_per_recipient() {
    let mut store = Store::new();
    create_confirmed_subscriber(&mut store, 1, "ursula_le_guin@gmail.com", "token-1");
    create_confirmed_subscriber(&mut store, 2, "octavia_butler@gmail.com", "token-2");
    create_unconfirmed_subscriber(&mut store, 3, "pending@gmail.com", "token-3");

    // The loser would answer differently if it ran the command itself.
    let mut other = accepted();
    other.append_header("x-request".to_string(), b"second".to_vec());
    let mut first = PublishTask::new(UserId(1), form("abc123"), accepted()).unwrap();
    let mut second = PublishTask::new(UserId(1), form("abc123"), other).unwrap();

    let mut now = 0;
    while !(matches!(first.phase, PublishPhase::Finished(_))
        && matches!(second.phase, PublishPhase::Finished(_)))
    {
        now += 1;
        assert!(now < 20, "the race should end");
        second = second.step(&mut store, now);
        first = first.step(&mut store, now);
    }
    let (response1, response2) = match (first.phase, second.phase) {
        (PublishPhase::Finished(a), PublishPhase::Finished(b)) => (a, b),
        other => panic!("both requests should be answered, got {:?}", other),
    };
    assert_eq!(response1.status_code.as_u16(), 303);
    assert!(same_response(&response1, &response2));
    // The second request went first, so its response is the one saved.
    assert_eq!(response1.headers.len(), 2);
    assert_eq!(response1.headers[1].name, "x-request");

    assert_eq!(store.issues().len(), 1);
    let mut sent = deliver_all(&mut store);
    sent.sort();
    assert_eq!(
        sent,
        vec![
            (
                "octavia_butler@gmail.com".to_string(),
                "Newsletter title".to_string()
            ),
            (
                "ursula_le_guin@gmail.com".to_string(),
                "Newsletter title".to_string()
            ),
        ]
    );
}

#[test]
fn many_racing_requests_in_any_order_agree_and_publish_once() {
    // Every schedule of three requests over up to seven turns.
    let turns = 7;
    let mut schedule = vec![0usize; turns];
    loop {
        let mut store = Store::new();
        create_confirmed_subscriber(&mut store, 1, "ursula_le_guin@gmail.com", "token-1");
        let mut tasks: Vec<Option<PublishTask>> = (0..3)
            .map(|i| {
                let mut own = accepted();
                own.append_header("x-request".to_string(), vec![b'0' + i as u8]);
                Some(PublishTask::new(UserId(1), form("abc123"), own).unwrap())
            })
            .collect();
        for (time, who) in schedule.iter().enumerate() {
            let task = tasks[*who].take().unwrap();
            tasks[*who] = Some(task.step(&mut store, time as u64));
        }
        let answers: Vec<&HttpResponse> = tasks
            .iter()
            .filter_map(|task| match &task.as_ref().unwrap().phase {
                PublishPhase::Finished(response) => Some(response),
                _ => None,
            })
            .collect();
        for answer in &answers {
            assert!(same_response(answer, answers[0]));
        }
        let issues = store.issues().len();
        if answers.is_empty() {
            assert_eq!(issues, 0);
            assert_eq!(store.queue().len(), 0);
        } else {
            assert_eq!(issues, 1);
            assert_eq!(store.queue().len(), 1);
        }

        // The next schedule, counting in base three.
        let mut place = 0;
        while place < turns && schedule[place] == 2 {
            schedule[place] = 0;
            place += 1;
        }
        if place == turns {
            break;
        }
        schedule[place] += 1;
    }
}

#[test]
fn a_subscriber_confirmed_after_the_enqueue_receives_nothing_for_that_issue() {
    let mut store = Store::new();
    create_confirmed_subscriber(&mut store, 1, "ursula_le_guin@gmail.com", "token-1");
    create_unconfirmed_subscriber(&mut store, 2, "late@gmail.com", "token-2");

    let mut task = PublishTask::new(UserId(1), form("abc123"), accepted()).unwrap();
    task = task.step(&mut store, 1);
    task = task.step(&mut store, 2);
    assert!(matches!(task.phase, PublishPhase::Enqueued(_, _)));

    // The second subscriber confirms while the issue is enqueued but not committed.
    let status = confirm(
        &mut store,
        &Parameters {
            subscription_token: "token-2".to_string(),
        },
    );
    assert_eq!(status.as_u16(), 200);

    task = task.step(&mut store, 3);
    assert!(matches!(task.phase, PublishPhase::Finished(_)));

    let sent = deliver_all(&mut store);
    assert_eq!(
        sent,
        vec![(
            "ursula_le_guin@gmail.com".to_string(),
            "Newsletter title".to_string()
        )]
    );

    // The next issue does reach them.
    publish_newsletter_at(&mut store, UserId(1), form("next"), 10).unwrap();
    assert_eq!(deliver_all(&mut store).len(), 2);
}

#[test]
fn unconfirming_is_not_needed_to_keep_an_enqueued_row() {
    let mut store = Store::new();
    create_confirmed_subscriber(&mut store, 1, "ursula_le_guin@gmail.com", "token-1");
    publish_newsletter_at(&mut store, UserId(1), form("abc123"), 10).unwrap();
    let queue = store.queue();
    assert_eq!(queue.len(), 1);
    assert_eq!(queue[0].recipient, "ursula_le_guin@gmail.com");
    assert_eq!(queue[0].attempts, 0);
    assert_eq!(queue[0].state, DeliveryState::Pending);
    assert!(!queue[0].locked);
}

#[test]
fn an_idempotency_key_longer_than_the_maximum_is_rejected_before_the_store_is_touched() {
    let mut store = Store::new();
    create_confirmed_subscriber(&mut store, 1, "ursula_le_guin@gmail.com", "token-1");
    let too_long = "k".repeat(51);

    let reply = publish_newsletter_at(&mut store, UserId(9), form(&too_long), 10)
        .unwrap()
        .expect("an answer");

    assert_eq!(reply.response.status_code.as_u16(), 400);
    assert_eq!(
        reply.response.body,
        b"The idempotency key cannot be longer than 50 characters".to_vec()
    );
    assert!(reply.flash.is_none());
    assert!(store.issues().is_empty());
    assert!(store.queue().is_empty());
    // No claim was taken either: a valid request for any key starts fresh.
    assert_eq!(
        PublishTask::new(UserId(9), form(&too_long), accepted())
            .err()
            .unwrap(),
        KeyError::TooLong
    );
}

#[test]
fn an_empty_idempotency_key_is_rejected() {
    let mut store = Store::new();
    let reply = publish_newsletter_at(&mut store, UserId(9), form(""), 10)
        .unwrap()
        .expect("an answer");
    assert_eq!(reply.response.status_code.as_u16(), 400);
    assert_eq!(
        reply.response.body,
        b"The idempotency key cannot be empty".to_vec()
    );
    assert_eq!(reply.response.headers[0].name, "content-type");
    assert_eq!(
        reply.response.headers[0].value,
        b"text/plain; charset=utf-8".to_vec()
    );
}

#[test]
fn a_request_that_finds_the_claim_held_is_told_to_ask_again() {
    let mut store = Store::new();
    let mut holder = PublishTask::new(UserId(9), form("abc123"), accepted()).unwrap();
    holder = holder.step(&mut store, 10);
    assert!(matches!(holder.phase, PublishPhase::Claimed(_)));

    let outcome = publish_newsletter_at(&mut store, UserId(9), form("abc123"), 11).unwrap();
    assert!(outcome.is_none());
    assert!(store.issues().is_empty());
}

#[test]
fn a_request_that_lost_its_claim_starts_over_and_replays() {
    let mut store = Store::new();
    let mut slow = PublishTask::new(UserId(9), form("abc123"), accepted()).unwrap();
    slow = slow.step(&mut store, 10);
    slow = slow.step(&mut store, 11);
    assert!(matches!(slow.phase, PublishPhase::Enqueued(_, _)));

    // Long after, another request takes the claim over and finishes.
    let reply = publish_newsletter_at(&mut store, UserId(9), form("abc123"), 10_000)
        .unwrap()
        .expect("an answer");
    assert_is_published(&reply);

    slow = slow.step(&mut store, 10_001);
    assert!(matches!(slow.phase, PublishPhase::Start));
    slow = slow.step(&mut store, 10_002);
    match slow.phase {
        PublishPhase::Finished(response) => assert!(same_response(&response, &reply.response)),
        other => panic!("expected a replay, got {:?}", other),
    }
    assert_eq!(store.issues().len(), 1);
}

#[test]
fn publish_errors_turn_into_responses() {
    let unexpected = PublishError::from_store(zero2prod::store::model::StoreError::Exhausted);
    assert_eq!(unexpected.to_string(), "The store has run out of identifiers");
    let response = unexpected.into_response();
    assert_eq!(response.status_code.as_u16(), 500);
    assert!(response.headers.is_empty());
    assert!(response.body.is_empty());

    let denied = PublishError::AuthError(zero2prod::error::ErrorChain::new("no session"));
    assert_eq!(denied.to_string(), "Authentication failed");
    assert_eq!(
        denied.debug_text(),
        "Authentication failed\n\nCaused by:\n\tno session\n"
    );
    let response = denied.into_response();
    assert_eq!(response.status_code.as_u16(), 401);
    assert_eq!(response.headers[0].name, "www-authenticate");
    assert_eq!(
        response.headers[0].value,
        b"Basic realm=\"publish\"".to_vec()
    );
}

#[test]
fn what_follows_a_request_for_the_claim_is_decided() {
    let next: Step<u8, &str> = after_claim(Ok(NextAction::StartProcessing(7)));
    assert!(matches!(next, Step::Enqueue(7)));
    let next: Step<u8, &str> = after_claim(Ok(NextAction::ReturnSavedResponse(accepted())));
    match next {
        Step::Answer(response) => assert_is_redirect_to(&response, "/admin/newsletters"),
        other => panic!("expected an answer, got {:?}", other),
    }
    let next: Step<u8, &str> = after_claim(Ok(NextAction::InProgress));
    assert!(matches!(next, Step::Wait));
    let next: Step<u8, &str> = after_claim(Err(Failure::ClaimLost));
    assert!(matches!(next, Step::Claim));
    let next: Step<u8, &str> = after_claim(Err(Failure::Other("pool timed out")));
    assert!(matches!(next, Step::Fail("pool timed out")));
}

#[test]
fn what_follows_the_writing_of_the_issue_is_decided() {
    let next: Step<u8, &str> = after_enqueue(7, Ok(()), accepted());
    match next {
        Step::Complete(7, response) => assert_is_redirect_to(&response, "/admin/newsletters"),
        other => panic!("expected a commit, got {:?}", other),
    }
    let next: Step<u8, &str> = after_enqueue(7, Err(Failure::ClaimLost), accepted());
    assert!(matches!(next, Step::Claim));
    let next: Step<u8, &str> = after_enqueue(7, Err(Failure::Other("disk full")), accepted());
    assert!(matches!(next, Step::Abort(7, "disk full")));
}

#[test]
fn what_follows_the_commit_is_decided() {
    let next: Step<u8, &str> = after_complete(Ok(()), accepted());
    match next {
        Step::Answer(response) => assert_is_redirect_to(&response, "/admin/newsletters"),
        other => panic!("expected an answer, got {:?}", other),
    }
    let next: Step<u8, &str> = after_complete(Err(Failure::ClaimLost), accepted());
    assert!(matches!(next, Step::Claim));
    let next: Step<u8, &str> = after_complete(Err(Failure::Other("disk full")), accepted());
    assert!(matches!(next, Step::Fail("disk full")));
}

#[test]
fn a_transaction_that_is_not_open_means_the_claim_is_lost() {
    assert!(matches!(
        failure_of(StoreError::NoSuchTransaction),
        Failure::ClaimLost
    ));
    assert!(matches!(
        failure_of(StoreError::Exhausted),
        Failure::Other(StoreError::Exhausted)
    ));
    assert!(matches!(
        failure_of(StoreError::AlreadyEnqueued),
        Failure::Other(StoreError::AlreadyEnqueued)
    ));
}
