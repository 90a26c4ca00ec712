use zero2prod::authentication::middleware::{reject_anonymous_users, Access, UserId};
use zero2prod::authentication::password::AuthError;
use zero2prod::error::ErrorChain;
use zero2prod::flash::Level;
use zero2prod::routes::admin::logout::logout;
use zero2prod::routes::admin::password::post::{
    change_password, Action, Event, FormData as PasswordForm, Progress,
};
use zero2prod::routes::login::post::{credentials, login, FormData as LoginForm};
use zero2prod::routes::newsletters::{
    basic_authentication, credentials_from_decoded, publish_newsletter,
    Action as PublishAction, BasicAuthError, BodyData, Content, Event as PublishEvent,
    Progress as Publishing, PublishError,
};

fn location(response: &zero2prod::response::HttpResponse) -> String {
    let header = response
        .headers
        .iter()
        .find(|header| header.name == "location")
        .expect("a location header");
    String::from_utf8(header.value.clone()).unwrap()
}

#[test]
fn basic_credentials_are_read_from_the_header() {
    // "admin:everythinghastostartsomewhere"
    let header = b"Basic YWRtaW46ZXZlcnl0aGluZ2hhc3Rvc3RhcnRzb21ld2hlcmU=".to_vec();
    let credentials = basic_authentication(Some(&header)).unwrap();
    assert_eq!(credentials.username, "admin");
    assert_eq!(credentials.password, "everythinghastostartsomewhere");
}

#[test]
fn a_password_may_hold_colons() {
    // "user:pa:ss:"
    let header = b"Basic dXNlcjpwYTpzczo=".to_vec();
    let credentials = basic_authentication(Some(&header)).unwrap();
    assert_eq!(credentials.username, "user");
    assert_eq!(credentials.password, "pa:ss:");
}

#[test]
fn an_empty_username_and_password_are_read_as_such() {
    // ":"
    let header = b"Basic Og==".to_vec();
    let credentials = basic_authentication(Some(&header)).unwrap();
    assert_eq!(credentials.username, "");
    assert_eq!(credentials.password, "");
}

#[test]
fn each_way_a_basic_header_can_be_wrong_has_its_error() {
    assert_eq!(
        basic_authentication(None).unwrap_err(),
        BasicAuthError::MissingHeader
    );
    assert_eq!(
        basic_authentication(Some(&vec![b'B', 0xc3, 0xa9])).unwrap_err(),
        BasicAuthError::NotText
    );
    assert_eq!(
        basic_authentication(Some(&b"Basic \x7f".to_vec())).unwrap_err(),
        BasicAuthError::NotText
    );
    assert_eq!(
        basic_authentication(Some(&b"Bearer abc".to_vec())).unwrap_err(),
        BasicAuthError::NotBasic
    );
    assert_eq!(
        basic_authentication(Some(&b"Basic".to_vec())).unwrap_err(),
        BasicAuthError::NotBasic
    );
    assert_eq!(
        basic_authentication(Some(&b"basic Og==".to_vec())).unwrap_err(),
        BasicAuthError::NotBasic
    );
    assert_eq!(
        basic_authentication(Some(&b"Basic not base64!".to_vec())).unwrap_err(),
        BasicAuthError::NotBase64
    );
    // "/w==" decodes to the single byte 0xff.
    assert_eq!(
        basic_authentication(Some(&b"Basic /w==".to_vec())).unwrap_err(),
        BasicAuthError::NotUtf8
    );
    // "YWRtaW4=" decodes to "admin".
    assert_eq!(
        basic_authentication(Some(&b"Basic YWRtaW4=".to_vec())).unwrap_err(),
        BasicAuthError::MissingPassword
    );
    // The empty segment decodes to the empty text.
    assert_eq!(
        basic_authentication(Some(&b"Basic ".to_vec())).unwrap_err(),
        BasicAuthError::MissingPassword
    );
}

#[test]
fn decoded_credentials_are_split_at_the_first_colon() {
    let credentials = credentials_from_decoded("désirée:pässword".as_bytes().to_vec()).unwrap();
    assert_eq!(credentials.username, "désirée");
    assert_eq!(credentials.password, "pässword");
    assert_eq!(
        credentials_from_decoded(vec![0xff, b':', b'a']).unwrap_err(),
        BasicAuthError::NotUtf8
    );
    assert_eq!(
        credentials_from_decoded(b"nocolon".to_vec()).unwrap_err(),
        BasicAuthError::MissingPassword
    );
}

#[test]
fn basic_auth_errors_have_messages_and_become_challenges() {
    assert_eq!(
        BasicAuthError::MissingHeader.message(),
        "The 'Authorization' header was missing"
    );
    assert_eq!(
        BasicAuthError::NotText.message(),
        "The 'Authorization' header was not a valid UTF8 string"
    );
    assert_eq!(
        BasicAuthError::NotBasic.message(),
        "The authorization scheme was not 'Basic'."
    );
    assert_eq!(
        BasicAuthError::NotBase64.message(),
        "Failed to base64-decode 'Basic' credentials."
    );
    assert_eq!(
        BasicAuthError::NotUtf8.message(),
        "The decoded credential string is not valid UTF8"
    );
    assert_eq!(
        BasicAuthError::MissingPassword.message(),
        "A password must be provided in 'Basic' auth."
    );
    let error = BasicAuthError::NotBasic.into_publish_error();
    assert_eq!(
        error.debug_text(),
        "Authentication failed\n\nCaused by:\n\tThe authorization scheme was not 'Basic'.\n"
    );
    let response = error.into_response();
    assert_eq!(response.status_code.as_u16(), 401);
    assert_eq!(
        response.headers[0].value,
        b"Basic realm=\"publish\"".to_vec()
    );
}

#[test]
fn a_failed_check_of_credentials_becomes_a_publish_error() {
    let denied = PublishError::from_auth(AuthError::InvalidCredentials(ErrorChain::new(
        "Invalid password.",
    )));
    assert!(matches!(denied, PublishError::AuthError(_)));
    assert_eq!(denied.into_response().status_code.as_u16(), 401);

    let broken = PublishError::from_auth(AuthError::UnexpectedError(ErrorChain::new("pool")));
    assert!(matches!(broken, PublishError::UnexpectedError(_)));
    assert_eq!(broken.to_string(), "pool");
    assert_eq!(broken.into_response().status_code.as_u16(), 500);
}

#[test]
fn a_failed_delivery_names_the_recipient() {
    let recipient =
        zero2prod::domain::SubscriberEmail::parse("ursula_le_guin@gmail.com".to_string()).unwrap();
    let error = PublishError::from_failed_delivery(&recipient, ErrorChain::new("timed out"));
    assert_eq!(
        error.debug_text(),
        "Failed to send newsletter issue to ursula_le_guin@gmail.com\n\nCaused by:\n\ttimed out\n"
    );
}

#[test]
fn anonymous_visitors_are_sent_to_the_login_page() {
    match reject_anonymous_users(None) {
        Access::Denied(reply) => {
            assert_eq!(reply.response.status_code.as_u16(), 303);
            assert_eq!(location(&reply.response), "/login");
            let flash = reply.flash.unwrap();
            assert_eq!(flash.level, Level::Error);
            assert_eq!(flash.message, "The user is not logged in.");
        }
        other => panic!("expected a refusal, got {:?}", other),
    }
    match reject_anonymous_users(Some(UserId(42))) {
        Access::Granted(user_id) => assert_eq!(user_id, UserId(42)),
        other => panic!("expected access, got {:?}", other),
    }
}

#[test]
fn a_user_id_is_written_as_a_hyphenated_uuid() {
    let user_id = UserId(0xa1a2a3a4b1b2c1c2d1d2d3d4d5d6d7d8);
    assert_eq!(user_id.to_string(), "a1a2a3a4-b1b2-c1c2-d1d2-d3d4d5d6d7d8");
    assert_eq!(user_id.as_u128(), 0xa1a2a3a4b1b2c1c2d1d2d3d4d5d6d7d8);
    assert_eq!(
        UserId(0).to_string(),
        "00000000-0000-0000-0000-000000000000"
    );
    assert_eq!(
        UserId(u128::MAX).to_string(),
        "ffffffff-ffff-ffff-ffff-ffffffffffff"
    );
}

#[test]
fn redirect_to_admin_dashboard_after_login_success() {
    let form = LoginForm {
        username: "admin".to_string(),
        password: "secret".to_string(),
    };
    let offered = credentials(form);
    assert_eq!(offered.username, "admin");
    assert_eq!(offered.password, "secret");

    let reply = login(Ok(UserId(1))).unwrap();
    assert_eq!(reply.response.status_code.as_u16(), 303);
    assert_eq!(location(&reply.response), "/admin/dashboard");
    assert!(reply.flash.is_none());
}

#[test]
fn an_error_flash_message_is_set_on_failures() {
    let reply = login(Err(AuthError::InvalidCredentials(ErrorChain::new(
        "Unknown username.",
    ))))
    .unwrap_err();
    assert_eq!(reply.response.status_code.as_u16(), 303);
    assert_eq!(location(&reply.response), "/login");
    let flash = reply.flash.unwrap();
    assert_eq!(flash.level, Level::Error);
    assert_eq!(flash.message, "Authentication failed");

    let reply = login(Err(AuthError::UnexpectedError(ErrorChain::new("pool")))).unwrap_err();
    assert_eq!(reply.flash.unwrap().message, "Something went wrong");
}

#[test]
fn logging_out_clears_the_session_of_a_logged_in_user() {
    let outcome = logout(Some(UserId(1)));
    assert!(outcome.clear_session);
    assert_eq!(location(&outcome.reply.response), "/login");
    let flash = outcome.reply.flash.unwrap();
    assert_eq!(flash.level, Level::Info);
    assert_eq!(flash.message, "You have been successfully logged out.");

    let outcome = logout(None);
    assert!(!outcome.clear_session);
    assert_eq!(location(&outcome.reply.response), "/login");
    assert!(outcome.reply.flash.is_none());
}

fn submitted(current: &str, new: &str, check: &str) -> Progress {
    Progress::Submitted(PasswordForm {
        current_password: current.to_string(),
        new_password: new.to_string(),
        new_password_check: check.to_string(),
    })
}

fn answer_of(action: Action) -> zero2prod::flash::Reply {
    match action {
        Action::Answer(reply) => reply,
        other => panic!("expected an answer, got {:?}", other),
    }
}

fn assert_sent_back_with(next: (Progress, Action), message: &str) {
    assert!(matches!(next.0, Progress::Done));
    let reply = answer_of(next.1);
    assert_eq!(location(&reply.response), "/admin/password");
    let flash = reply.flash.unwrap();
    assert_eq!(flash.level, Level::Error);
    assert_eq!(flash.message, message);
}

#[test]
fn you_must_be_logged_in_to_change_your_password() {
    let next = change_password(
        submitted("old", "a-new-password-1", "a-new-password-1"),
        Event::Session(None),
    );
    assert!(matches!(next.0, Progress::Done));
    let reply = answer_of(next.1);
    assert_eq!(location(&reply.response), "/login");
    assert!(reply.flash.is_none());
}

#[test]
fn new_password_fields_must_match() {
    let next = change_password(
        submitted("old", "a-new-password-1", "a-new-password-2"),
        Event::Session(Some(UserId(1))),
    );
    assert_sent_back_with(
        next,
        "You entered two different new passwords - the field values must match.",
    );
}

#[test]
fn password_less_than_12_long_fails() {
    let next = change_password(
        submitted("old", "12345678901", "12345678901"),
        Event::Session(Some(UserId(1))),
    );
    assert_sent_back_with(next, "Password needs to be at least 12 characters.");
    let next = change_password(
        submitted("old", "123456789012", "123456789012"),
        Event::Session(Some(UserId(1))),
    );
    assert!(matches!(next.0, Progress::FindingUser { .. }));
}

#[test]
fn password_at_least_128_long_fails() {
    let long = "p".repeat(128);
    let next = change_password(
        submitted("old", &long, &long),
        Event::Session(Some(UserId(1))),
    );
    assert_sent_back_with(next, "Password must be less than 128 characters.");
    let longest = "p".repeat(127);
    let next = change_password(
        submitted("old", &longest, &longest),
        Event::Session(Some(UserId(1))),
    );
    assert!(matches!(next.0, Progress::FindingUser { .. }));
    // Length is counted in bytes.
    let wide = "é".repeat(64);
    let next = change_password(
        submitted("old", &wide, &wide),
        Event::Session(Some(UserId(1))),
    );
    assert_sent_back_with(next, "Password must be less than 128 characters.");
}

#[test]
fn current_password_must_be_valid() {
    let (progress, action) = change_password(
        submitted("wrong", "a-new-password-1", "a-new-password-1"),
        Event::Session(Some(UserId(1))),
    );
    assert!(matches!(action, Action::FindUsername(UserId(1))));
    let (progress, action) = change_password(progress, Event::Username(Ok("admin".to_string())));
    match action {
        Action::CheckCredentials(offered) => {
            assert_eq!(offered.username, "admin");
            assert_eq!(offered.password, "wrong");
        }
        other => panic!("expected a check, got {:?}", other),
    }
    let next = change_password(
        progress,
        Event::Checked(Err(AuthError::InvalidCredentials(ErrorChain::new(
            "Invalid password.",
        )))),
    );
    assert_sent_back_with(next, "The current password is incorrect.");
}

#[test]
fn changing_password_works() {
    let (progress, _) = change_password(
        submitted("old", "a-new-password-1", "a-new-password-1"),
        Event::Session(Some(UserId(1))),
    );
    let (progress, _) = change_password(progress, Event::Username(Ok("admin".to_string())));
    let (progress, action) = change_password(progress, Event::Checked(Ok(UserId(1))));
    match action {
        Action::StorePassword {
            user_id,
            new_password,
        } => {
            assert_eq!(user_id, UserId(1));
            assert_eq!(new_password, "a-new-password-1");
        }
        other => panic!("expected the password to be stored, got {:?}", other),
    }
    let next = change_password(progress, Event::Stored(Ok(())));
    assert_sent_back_with(next, "Your password has been changed.");
}

#[test]
fn failures_while_changing_the_password_are_answered_with_a_500() {
    let (progress, _) = change_password(
        submitted("old", "a-new-password-1", "a-new-password-1"),
        Event::Session(Some(UserId(1))),
    );
    let next = change_password(
        progress,
        Event::Username(Err(ErrorChain::new(
            "Failed to perform a query to retrieve a username.",
        ))),
    );
    assert!(matches!(next.0, Progress::Done));
    let reply = answer_of(next.1);
    assert_eq!(reply.response.status_code.as_u16(), 500);
    assert_eq!(
        reply.response.body,
        b"Failed to perform a query to retrieve a username.".to_vec()
    );

    let next = change_password(Progress::Storing, Event::Stored(Err(ErrorChain::new("pool"))));
    assert_eq!(answer_of(next.1).response.status_code.as_u16(), 500);

    let next = change_password(
        Progress::CheckingPassword {
            user_id: UserId(1),
            new_password: "a-new-password-1".to_string(),
        },
        Event::Checked(Err(AuthError::UnexpectedError(ErrorChain::new("pool")))),
    );
    let reply = answer_of(next.1);
    assert_eq!(reply.response.status_code.as_u16(), 500);
    assert_eq!(reply.response.body, b"pool".to_vec());

    let next = change_password(Progress::Storing, Event::Session(None));
    let reply = answer_of(next.1);
    assert_eq!(reply.response.status_code.as_u16(), 500);
    assert_eq!(
        reply.response.body,
        b"The request took an unexpected turn.".to_vec()
    );
}

fn body() -> BodyData {
    BodyData {
        title: "Newsletter title".to_string(),
        content: Content {
            html: "<p>Newsletter body as HTML</p>".to_string(),
            text: "Newsletter body as plain text".to_string(),
        },
    }
}

fn authenticated() -> Publishing {
    let header = b"Basic YWRtaW46ZXZlcnl0aGluZ2hhc3Rvc3RhcnRzb21ld2hlcmU=".to_vec();
    let (progress, action) =
        publish_newsletter(Publishing::Arrived(body()), PublishEvent::Header(Some(header)));
    match action {
        PublishAction::CheckCredentials(offered) => {
            assert_eq!(offered.username, "admin");
            assert_eq!(offered.password, "everythinghastostartsomewhere");
        }
        other => panic!("expected a check, got {:?}", other),
    }
    let (progress, action) = publish_newsletter(progress, PublishEvent::Checked(Ok(UserId(1))));
    assert!(matches!(action, PublishAction::FetchSubscribers));
    progress
}

#[test]
fn requests_missing_authorization_are_rejected() {
    let (progress, action) =
        publish_newsletter(Publishing::Arrived(body()), PublishEvent::Header(None));
    assert!(matches!(progress, Publishing::Done));
    match action {
        PublishAction::Fail(error) => {
            assert_eq!(
                error.debug_text(),
                "Authentication failed\n\nCaused by:\n\tThe 'Authorization' header was missing\n"
            );
            let response = error.into_response();
            assert_eq!(response.status_code.as_u16(), 401);
            assert_eq!(
                response.headers[0].value,
                b"Basic realm=\"publish\"".to_vec()
            );
        }
        other => panic!("expected a refusal, got {:?}", other),
    }
}

#[test]
fn invalid_credentials_are_rejected_and_a_broken_check_is_a_500() {
    let header = b"Basic dXNlcjpwYTpzczo=".to_vec();
    let (progress, _) =
        publish_newsletter(Publishing::Arrived(body()), PublishEvent::Header(Some(header)));
    let (_, action) = publish_newsletter(
        progress,
        PublishEvent::Checked(Err(AuthError::InvalidCredentials(ErrorChain::new(
            "Invalid password.",
        )))),
    );
    match action {
        PublishAction::Fail(error) => assert_eq!(error.into_response().status_code.as_u16(), 401),
        other => panic!("expected a refusal, got {:?}", other),
    }

    let header = b"Basic dXNlcjpwYTpzczo=".to_vec();
    let (progress, _) =
        publish_newsletter(Publishing::Arrived(body()), PublishEvent::Header(Some(header)));
    let (_, action) = publish_newsletter(
        progress,
        PublishEvent::Checked(Err(AuthError::UnexpectedError(ErrorChain::new("pool")))),
    );
    match action {
        PublishAction::Fail(error) => assert_eq!(error.into_response().status_code.as_u16(), 500),
        other => panic!("expected a failure, got {:?}", other),
    }
}

#[test]
fn the_issue_goes_to_every_valid_address_in_the_order_stored() {
    let stored = vec![
        "ursula_le_guin@gmail.com".to_string(),
        "definitely-not-an-email".to_string(),
        "octavia@butler.org".to_string(),
        "".to_string(),
        "n.k@jemisin.org".to_string(),
    ];
    let mut step = publish_newsletter(authenticated(), PublishEvent::Subscribers(Ok(stored)));
    let mut sent = Vec::new();
    loop {
        let (progress, action) = step;
        match action {
            PublishAction::Send(email) => {
                assert_eq!(email.subject, "Newsletter title");
                assert_eq!(email.html_content, "<p>Newsletter body as HTML</p>");
                assert_eq!(email.text_content, "Newsletter body as plain text");
                sent.push(email.recipient);
            }
            PublishAction::Succeed => {
                assert!(matches!(progress, Publishing::Done));
                break;
            }
            other => panic!("expected an email or the end, got {:?}", other),
        }
        step = publish_newsletter(progress, PublishEvent::Sent(Ok(())));
    }
    assert_eq!(
        sent,
        vec![
            "ursula_le_guin@gmail.com".to_string(),
            "octavia@butler.org".to_string(),
            "n.k@jemisin.org".to_string(),
        ]
    );
}

#[test]
fn with_no_valid_address_nothing_is_sent() {
    let (progress, action) = publish_newsletter(
        authenticated(),
        PublishEvent::Subscribers(Ok(vec!["nobody".to_string()])),
    );
    assert!(matches!(progress, Publishing::Done));
    assert!(matches!(action, PublishAction::Succeed));
    let (_, action) = publish_newsletter(authenticated(), PublishEvent::Subscribers(Ok(vec![])));
    assert!(matches!(action, PublishAction::Succeed));
}

#[test]
fn the_first_email_that_cannot_be_sent_stops_the_request() {
    let stored = vec!["a@x.org".to_string(), "b@x.org".to_string()];
    let (progress, action) =
        publish_newsletter(authenticated(), PublishEvent::Subscribers(Ok(stored)));
    assert!(matches!(action, PublishAction::Send(_)));
    let (progress, action) = publish_newsletter(
        progress,
        PublishEvent::Sent(Err(ErrorChain::new("timed out"))),
    );
    assert!(matches!(progress, Publishing::Done));
    match action {
        PublishAction::Fail(error) => {
            assert_eq!(
                error.debug_text(),
                "Failed to send newsletter issue to a@x.org\n\nCaused by:\n\ttimed out\n"
            );
            assert_eq!(error.into_response().status_code.as_u16(), 500);
        }
        other => panic!("expected a failure, got {:?}", other),
    }
}

#[test]
fn a_failed_fetch_and_an_unexpected_event_stop_the_request() {
    let (_, action) = publish_newsletter(
        authenticated(),
        PublishEvent::Subscribers(Err(ErrorChain::new("pool timed out"))),
    );
    match action {
        PublishAction::Fail(error) => assert_eq!(error.to_string(), "pool timed out"),
        other => panic!("expected a failure, got {:?}", other),
    }
    let (progress, action) = publish_newsletter(Publishing::Done, PublishEvent::Sent(Ok(())));
    assert!(matches!(progress, Publishing::Done));
    match action {
        PublishAction::Fail(error) => {
            assert_eq!(error.to_string(), "The request took an unexpected turn.")
        }
        other => panic!("expected a failure, got {:?}", other),
    }
}

fn assert_is_sent_to_login(access: Access) {
    match access {
        Access::Denied(reply) => {
            assert_eq!(reply.response.status_code.as_u16(), 303);
            assert_eq!(location(&reply.response), "/login");
        }
        other => panic!("expected a refusal, got {:?}", other),
    }
}

#[test]
fn you_must_be_logged_in_to_see_change_password_form() {
    assert_is_sent_to_login(reject_anonymous_users(None));
}

#[test]
fn you_must_be_logged_in_to_see_the_newsletter_form() {
    assert_is_sent_to_login(reject_anonymous_users(None));
}

#[test]
fn you_must_be_logged_in_to_publish_a_newsletter() {
    assert_is_sent_to_login(reject_anonymous_users(None));
}
