use zero2prod::idempotency::persistence::{
    claim_attempt, replay, ClaimAttempt, GuardError, RestoreError, StoredResponse,
};
use zero2prod::response::{HeaderPair, HttpResponse, StatusCode};

fn sample() -> HttpResponse {
    let mut response = HttpResponse::redirect("/admin/newsletters");
    response.append_header("set-cookie".to_string(), vec![0xff, 0x00, b'a']);
    response.append_header("set-cookie".to_string(), b"second".to_vec());
    response.body = vec![0, 1, 2, 255];
    response
}

#[test]
fn a_stored_response_restores_to_what_was_stored() {
    let response = sample();
    let stored = StoredResponse::from_response(&response);
    assert_eq!(stored.status_code, Some(303));
    let restored = stored.into_response().unwrap();
    assert_eq!(restored.status_code.as_u16(), 303);
    assert_eq!(restored.body, vec![0, 1, 2, 255]);
    assert_eq!(restored.headers.len(), 3);
    assert_eq!(restored.headers[0].name, "location");
    assert_eq!(restored.headers[0].value, b"/admin/newsletters".to_vec());
    assert_eq!(restored.headers[1].name, "set-cookie");
    assert_eq!(restored.headers[1].value, vec![0xff, 0x00, b'a']);
    assert_eq!(restored.headers[2].name, "set-cookie");
    assert_eq!(restored.headers[2].value, b"second".to_vec());
}

#[test]
fn every_status_code_survives_the_round_trip() {
    for code in [100u16, 200, 303, 404, 500, 999] {
        let response = HttpResponse::bare(StatusCode::from_u16(code).unwrap());
        let restored = StoredResponse::from_response(&response)
            .into_response()
            .unwrap();
        assert_eq!(restored.status_code.as_u16(), code);
    }
}

#[test]
fn status_codes_outside_the_range_are_refused() {
    assert!(StatusCode::from_u16(99).is_none());
    assert!(StatusCode::from_u16(1000).is_none());
    assert!(StatusCode::from_u16(0).is_none());
    assert!(StatusCode::from_u16(u16::MAX).is_none());
    assert_eq!(StatusCode::from_u16(100).unwrap().as_u16(), 100);
    assert_eq!(StatusCode::from_u16(999).unwrap().as_u16(), 999);
}

#[test]
fn an_empty_payload_is_a_command_in_progress() {
    assert_eq!(
        StoredResponse::in_progress().into_response().unwrap_err(),
        RestoreError::InProgress
    );
}

#[test]
fn a_half_filled_payload_is_refused() {
    let stored = StoredResponse {
        status_code: Some(200),
        headers: None,
        body: Some(vec![]),
    };
    assert_eq!(
        stored.into_response().unwrap_err(),
        RestoreError::Incomplete
    );
    let stored = StoredResponse {
        status_code: None,
        headers: Some(vec![]),
        body: Some(vec![]),
    };
    assert_eq!(
        stored.into_response().unwrap_err(),
        RestoreError::Incomplete
    );
}

#[test]
fn a_stored_number_that_is_no_status_code_is_refused() {
    for code in [-1i16, 0, 99, 1000, i16::MAX, i16::MIN] {
        let stored = StoredResponse {
            status_code: Some(code),
            headers: Some(vec![HeaderPair {
                name: "a".to_string(),
                value: vec![],
            }]),
            body: Some(vec![]),
        };
        assert_eq!(
            stored.into_response().unwrap_err(),
            RestoreError::InvalidStatusCode
        );
    }
}

#[test]
fn the_claim_is_won_exactly_when_a_row_was_inserted() {
    assert_eq!(claim_attempt(0), ClaimAttempt::Lost);
    assert_eq!(claim_attempt(1), ClaimAttempt::Won);
    assert_eq!(claim_attempt(u64::MAX), ClaimAttempt::Won);
}

#[test]
fn a_lost_claim_is_answered_with_the_saved_response() {
    let stored = StoredResponse::from_response(&sample());
    let answer = replay(Some(stored)).unwrap();
    assert_eq!(answer.status_code.as_u16(), 303);
    assert_eq!(answer.headers.len(), 3);
    assert_eq!(answer.body, vec![0, 1, 2, 255]);
}

#[test]
fn a_lost_claim_without_a_readable_row_is_an_error() {
    assert_eq!(replay(None).unwrap_err(), GuardError::MissingSavedResponse);
    assert_eq!(
        replay(Some(StoredResponse::in_progress())).unwrap_err(),
        GuardError::Unreadable(RestoreError::InProgress)
    );
}
