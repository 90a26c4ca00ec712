use zero2prod::authentication::password::AuthError;
use zero2prod::error::{error_chain_fmt, ErrorChain, ResponseError};
use zero2prod::response::StatusCode;
use zero2prod::routes::login::post::LoginError;
use zero2prod::routes::subscriptions::{StoreTokenError, SubscribeError};

#[test]
fn an_error_without_causes_is_its_message_and_a_blank_line() {
    assert_eq!(error_chain_fmt("it broke", &vec![]), "it broke\n\n");
    assert_eq!(error_chain_fmt("", &vec![]), "\n\n");
}

#[test]
fn every_cause_is_written_on_a_line_of_its_own() {
    let causes = vec!["the disk is full".to_string(), "quota".to_string()];
    assert_eq!(
        error_chain_fmt("it broke", &causes),
        "it broke\n\nCaused by:\n\tthe disk is full\nCaused by:\n\tquota\n"
    );
    assert_eq!(
        zero2prod::routes::subscriptions::error_chain_fmt("it broke", &causes),
        "it broke\n\nCaused by:\n\tthe disk is full\nCaused by:\n\tquota\n"
    );
}

#[test]
fn context_puts_a_message_on_top_of_the_chain() {
    let error = ErrorChain::new("connection refused")
        .context("Failed to acquire a connection")
        .context("Failed to insert a new subscriber in the database");
    assert_eq!(
        error.to_string(),
        "Failed to insert a new subscriber in the database"
    );
    assert_eq!(
        error.causes,
        vec![
            "Failed to acquire a connection".to_string(),
            "connection refused".to_string()
        ]
    );
    assert_eq!(
        error.report(),
        "Failed to insert a new subscriber in the database\n\nCaused by:\n\tFailed to acquire a connection\nCaused by:\n\tconnection refused\n"
    );
}

#[test]
fn a_response_error_answers_with_its_status_and_message() {
    let error = ResponseError::new(
        StatusCode::bad_request(),
        ErrorChain::new("root cause").context("The idempotency key cannot be empty"),
    );
    assert_eq!(error.to_string(), "The idempotency key cannot be empty");
    assert_eq!(
        error.debug_text(),
        "The idempotency key cannot be empty\n\nCaused by:\n\troot cause\n"
    );
    let response = error.into_response();
    assert_eq!(response.status_code.as_u16(), 400);
    assert_eq!(response.headers.len(), 1);
    assert_eq!(response.headers[0].name, "content-type");
    assert_eq!(
        response.headers[0].value,
        b"text/plain; charset=utf-8".to_vec()
    );
    assert_eq!(
        response.body,
        b"The idempotency key cannot be empty".to_vec()
    );
}

#[test]
fn a_response_error_of_unknown_kind_is_a_500_and_its_status_can_be_set() {
    let error = ResponseError::from_error(ErrorChain::new("boom"));
    let response = error.into_response();
    assert_eq!(response.status_code.as_u16(), 500);
    assert_eq!(response.body, b"boom".to_vec());

    let error =
        ResponseError::from_error(ErrorChain::new("boom")).set_status(StatusCode::unauthorized());
    assert_eq!(error.into_response().status_code.as_u16(), 401);
}

#[test]
fn auth_errors_keep_their_cause() {
    let invalid = AuthError::InvalidCredentials(ErrorChain::new("Unknown username."));
    assert_eq!(invalid.to_string(), "Invalid credentials.");
    assert_eq!(
        invalid.debug_text(),
        "Invalid credentials.\n\nCaused by:\n\tUnknown username.\n"
    );
    let chain = invalid.into_chain();
    assert_eq!(chain.message, "Invalid credentials.");
    assert_eq!(chain.causes, vec!["Unknown username.".to_string()]);

    let unexpected = AuthError::UnexpectedError(ErrorChain::new("pool timed out"));
    assert_eq!(unexpected.to_string(), "pool timed out");
    assert_eq!(unexpected.into_chain().causes.len(), 0);
}

#[test]
fn a_login_error_redirects_with_its_message_percent_encoded() {
    let error = LoginError::from_auth(AuthError::InvalidCredentials(ErrorChain::new(
        "Unknown username.",
    )));
    assert_eq!(error.to_string(), "Authentication failed");
    assert_eq!(
        error.debug_text(),
        "Authentication failed\n\nCaused by:\n\tInvalid credentials.\nCaused by:\n\tUnknown username.\n"
    );
    let response = error.into_response();
    assert_eq!(response.status_code.as_u16(), 303);
    assert_eq!(response.headers[0].name, "location");
    assert_eq!(
        response.headers[0].value,
        b"/login?error=Authentication%20failed".to_vec()
    );

    let error = LoginError::from_auth(AuthError::UnexpectedError(ErrorChain::new("pool")));
    assert_eq!(error.to_string(), "Something went wrong");
    assert_eq!(
        error.into_response().headers[0].value,
        b"/login?error=Something%20went%20wrong".to_vec()
    );
}

#[test]
fn a_subscribe_error_answers_with_its_message() {
    let refused = SubscribeError::ValidationError(" is not a valid subscriber name.".to_string());
    assert_eq!(
        refused.debug_text(),
        " is not a valid subscriber name.\n\n"
    );
    let response = refused.into_response();
    assert_eq!(response.status_code.as_u16(), 400);
    assert_eq!(response.body, b" is not a valid subscriber name.".to_vec());

    let broken = SubscribeError::UnexpectedError(
        ErrorChain::new("pool timed out").context("Failed to send a confirmation email."),
    );
    assert_eq!(broken.to_string(), "Failed to send a confirmation email.");
    let response = broken.into_response();
    assert_eq!(response.status_code.as_u16(), 500);
    assert_eq!(
        response.body,
        b"Failed to send a confirmation email.".to_vec()
    );
}

#[test]
fn a_store_token_error_names_the_database() {
    let error = StoreTokenError(ErrorChain::new("relation does not exist"));
    assert_eq!(
        error.to_string(),
        "A database error occurred while trying to store a subscription token."
    );
    assert_eq!(
        error.debug_text(),
        "A database error occurred while trying to store a subscription token.\n\nCaused by:\n\trelation does not exist\n"
    );
    let chain = error.into_chain();
    assert_eq!(chain.causes, vec!["relation does not exist".to_string()]);
}
