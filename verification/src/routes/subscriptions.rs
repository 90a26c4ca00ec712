//! Subscribing: the form is checked, the subscriber is recorded as pending
//! with a fresh token, and a confirmation email goes out.

use crate::domain::{
    invalid_email_message, invalid_name_message, is_valid_email, is_valid_name, NewSubscriber,
    SubscriberEmail, SubscriberName,
};
use crate::email_client::{Email, EmailView};
use crate::error::{error_chain_text, messages, plain_text, plain_text_response, ErrorChain,
    ErrorChainView};
use crate::foreign::{
    is_alphanumeric_byte, is_random_uuid, new_uuid, push_char, random_alphanumeric,
    unix_time_now,
};
use crate::response::{HttpResponse, StatusCode};
use crate::startup::ApplicationBaseUrl;
use crate::store::memory::Store;
use crate::store::model::{StoreError, StoreView};
use vstd::prelude::*;
use vstd::string::*;

verus! {

/// What the subscription form submits.
#[derive(Debug)]
pub struct FormData {
    pub email: String,
    pub name: String,
}

/// What checking a form yields: the address and the name if both are valid,
/// and otherwise the message that refuses the first that is not, the
/// address being looked at first.
pub open spec fn checked_form(email: Seq<char>, name: Seq<char>) -> Result<
    (Seq<char>, Seq<char>),
    Seq<char>,
> {
    if !is_valid_email(email) {
        Err(invalid_email_message(email))
    } else if !is_valid_name(name) {
        Err(invalid_name_message(name))
    } else {
        Ok((email, name))
    }
}

/// Checks a subscription form.
pub fn try_from_form(form: FormData) -> (checked: Result<NewSubscriber, String>)
    ensures
        match checked {
            Ok(subscriber) => checked_form(form.email@, form.name@) == Ok::<
                (Seq<char>, Seq<char>),
                Seq<char>,
            >((subscriber.email@, subscriber.name@)),
            Err(message) => checked_form(form.email@, form.name@) == Err::<
                (Seq<char>, Seq<char>),
                Seq<char>,
            >(message@),
        },
{
    let FormData { email, name } = form;
    let email = match SubscriberEmail::parse(email) {
        Ok(email) => email,
        Err(message) => {
            return Err(message);
        },
    };
    let name = match SubscriberName::parse(name) {
        Ok(name) => name,
        Err(message) => {
            return Err(message);
        },
    };
    Ok(NewSubscriber { email, name })
}

/// Why subscribing failed.
#[derive(Debug)]
pub enum SubscribeError {
    /// The form was refused; the text says why.
    ValidationError(String),
    /// Something else went wrong.
    UnexpectedError(ErrorChain),
}

/// The mathematical content of a [`SubscribeError`].
pub enum SubscribeErrorView {
    ValidationError(Seq<char>),
    UnexpectedError(ErrorChainView),
}

impl View for SubscribeError {
    type V = SubscribeErrorView;

    open spec fn view(&self) -> SubscribeErrorView {
        match self {
            SubscribeError::ValidationError(message) => SubscribeErrorView::ValidationError(
                message@,
            ),
            SubscribeError::UnexpectedError(cause) => SubscribeErrorView::UnexpectedError(cause@),
        }
    }
}

impl SubscribeErrorView {
    /// The error's own message.
    pub open spec fn message(self) -> Seq<char> {
        match self {
            SubscribeErrorView::ValidationError(message) => message,
            SubscribeErrorView::UnexpectedError(cause) => cause.message,
        }
    }

    /// The messages of the causes behind the error, nearest first.
    pub open spec fn causes(self) -> Seq<Seq<char>> {
        match self {
            SubscribeErrorView::ValidationError(_) => Seq::empty(),
            SubscribeErrorView::UnexpectedError(cause) => cause.causes,
        }
    }

    /// The status the error is answered with.
    pub open spec fn status(self) -> u16 {
        match self {
            SubscribeErrorView::ValidationError(_) => 400,
            SubscribeErrorView::UnexpectedError(_) => 500,
        }
    }
}

impl SubscribeError {
    /// The error's own message.
    pub fn to_string(&self) -> (text: String)
        ensures
            text@ == self@.message(),
    {
        match self {
            SubscribeError::ValidationError(message) => message.clone(),
            SubscribeError::UnexpectedError(cause) => cause.to_string(),
        }
    }

    /// The error written out with its causes, for the log.
    pub fn debug_text(&self) -> (text: String)
        ensures
            text@ == error_chain_text(self@.message(), self@.causes()),
    {
        match self {
            SubscribeError::ValidationError(message) => {
                let none: Vec<String> = Vec::new();
                assert(messages(none@) =~= Seq::empty());
                error_chain_fmt(message.as_str(), &none)
            },
            SubscribeError::UnexpectedError(cause) => cause.report(),
        }
    }

    /// What the visitor is sent: the error's message as plain text, with
    /// `400 Bad Request` for a refused form and `500 Internal Server Error`
    /// for anything else.
    pub fn into_response(self) -> (response: HttpResponse)
        ensures
            response@ == plain_text_response(self@.status(), self@.message()),
    {
        let body = self.to_string();
        let status_code = match self {
            SubscribeError::ValidationError(_) => StatusCode::bad_request(),
            SubscribeError::UnexpectedError(_) => StatusCode::internal_server_error(),
        };
        plain_text(status_code, body.as_str())
    }
}

/// The step of subscribing that went wrong.
#[derive(Copy, Clone, Debug, PartialEq, Eq, Structural)]
pub enum SubscribeStep {
    /// Opening a transaction.
    Acquire,
    /// Recording the subscriber.
    Insert,
    /// Storing the confirmation token.
    StoreToken,
    /// Committing the transaction.
    Commit,
    /// Sending the confirmation email.
    Send,
}

impl SubscribeStep {
    /// What the error says when this step went wrong.
    pub open spec fn failure_text(self) -> Seq<char> {
        match self {
            SubscribeStep::Acquire => "Failed to acquire a Postgres connection from the pool."@,
            SubscribeStep::Insert => "Failed to insert a new subscriber in the database"@,
            SubscribeStep::StoreToken => "Failed to store the confirmation token for a new subscriber"@,
            SubscribeStep::Commit => "Failed to commit SQL transaction to store a new subscriber."@,
            SubscribeStep::Send => "Failed to send a confirmation email."@,
        }
    }

    /// The error for this step having gone wrong because of `cause`: an
    /// unexpected error that names the step, with the cause beneath.
    pub fn failed(self, cause: ErrorChain) -> (error: SubscribeError)
        ensures
            error@ == step_failure(self, cause@),
    {
        SubscribeError::UnexpectedError(
            match self {
                SubscribeStep::Acquire => cause.context(
                    "Failed to acquire a Postgres connection from the pool.",
                ),
                SubscribeStep::Insert => cause.context(
                    "Failed to insert a new subscriber in the database",
                ),
                SubscribeStep::StoreToken => cause.context(
                    "Failed to store the confirmation token for a new subscriber",
                ),
                SubscribeStep::Commit => cause.context(
                    "Failed to commit SQL transaction to store a new subscriber.",
                ),
                SubscribeStep::Send => cause.context("Failed to send a confirmation email."),
            },
        )
    }
}

/// The error for `step` having gone wrong because of `cause`.
pub open spec fn step_failure(step: SubscribeStep, cause: ErrorChainView) -> SubscribeErrorView {
    SubscribeErrorView::UnexpectedError(
        ErrorChainView { message: step.failure_text(), causes: cause.all() },
    )
}

/// The failure to store a subscription token, with the storage error behind
/// it.
#[derive(Debug)]
pub struct StoreTokenError(pub ErrorChain);

impl View for StoreTokenError {
    type V = ErrorChainView;

    open spec fn view(&self) -> ErrorChainView {
        self.0@
    }
}

/// The message of every [`StoreTokenError`].
pub const STORE_TOKEN_ERROR_MESSAGE: &'static str =
    "A database error occurred while trying to store a subscription token.";

impl StoreTokenError {
    /// The error's own message.
    pub fn to_string(&self) -> (text: String)
        ensures
            text@ == STORE_TOKEN_ERROR_MESSAGE@,
    {
        String::from_str(STORE_TOKEN_ERROR_MESSAGE)
    }

    /// The error written out with its causes, for the log.
    pub fn debug_text(&self) -> (text: String)
        ensures
            text@ == error_chain_text(STORE_TOKEN_ERROR_MESSAGE@, self@.all()),
    {
        self.0.clone().context(STORE_TOKEN_ERROR_MESSAGE).report()
    }

    /// The error with the causes behind it.
    pub fn into_chain(self) -> (chain: ErrorChain)
        ensures
            chain@ == (ErrorChainView { message: STORE_TOKEN_ERROR_MESSAGE@, causes: self@.all() }),
    {
        self.0.context(STORE_TOKEN_ERROR_MESSAGE)
    }
}

/// Writes out an error with the chain of causes behind it, outermost first.
pub fn error_chain_fmt(message: &str, causes: &Vec<String>) -> (report: String)
    ensures
        report@ == error_chain_text(message@, messages(causes@)),
{
    crate::error::error_chain_fmt(message, causes)
}

/// The length of a subscription token.
pub const TOKEN_LENGTH: usize = 25;

/// Whether `c` is an ASCII letter or digit.
pub open spec fn is_token_char(c: char) -> bool {
    (c as u32) < 128 && is_alphanumeric_byte(c as u8)
}

/// Whether `text` has the shape of a subscription token: 25 characters,
/// each an ASCII letter or digit.
pub open spec fn is_subscription_token(text: Seq<char>) -> bool {
    &&& text.len() == TOKEN_LENGTH
    &&& forall|i: int| 0 <= i < text.len() ==> is_token_char(#[trigger] text[i])
}

/// A fresh subscription token: 25 letters and digits drawn at random.
pub fn generate_subscription_token() -> (token: String)
    ensures
        is_subscription_token(token@),
{
    let mut token = String::new();
    let mut i: usize = 0;
    while i < TOKEN_LENGTH
        invariant
            i <= TOKEN_LENGTH,
            token@.len() == i,
            forall|j: int| 0 <= j < i ==> is_token_char(#[trigger] token@[j]),
        decreases TOKEN_LENGTH - i,
    {
        let byte = random_alphanumeric();
        push_char(&mut token, byte as char);
        i += 1;
    }
    token
}

/// The link a subscriber follows to confirm.
pub open spec fn confirmation_link(base_url: Seq<char>, token: Seq<char>) -> Seq<char> {
    base_url + "/subscriptions/confirm?subscription_token="@ + token
}

/// The email that asks a new subscriber to confirm.
pub open spec fn confirmation_email(recipient: Seq<char>, base_url: Seq<char>, token: Seq<char>)
    -> EmailView {
    let link = confirmation_link(base_url, token);
    EmailView {
        recipient,
        subject: "Welcome!"@,
        html_content: "Welcome to our newsletter!<br />Click <a href=\""@ + link
            + "\">here</a> to confirm your subscription."@,
        text_content: "Welcome to our newsletter!\nVisit "@ + link
            + " to confirm your subscription."@,
    }
}

/// Writes the email that asks `new_subscriber` to confirm, with the link
/// built from the service's address and the subscriber's token.
pub fn send_confirmation_email(
    new_subscriber: &NewSubscriber,
    base_url: &str,
    subscription_token: &str,
) -> (email: Email)
    ensures
        email@ == confirmation_email(new_subscriber.email@, base_url@, subscription_token@),
{
    let mut link = base_url.to_owned();
    link.append("/subscriptions/confirm?subscription_token=");
    link.append(subscription_token);
    let mut text_content = String::from_str("Welcome to our newsletter!\nVisit ");
    text_content.append(link.as_str());
    text_content.append(" to confirm your subscription.");
    let mut html_content = String::from_str("Welcome to our newsletter!<br />Click <a href=\"");
    html_content.append(link.as_str());
    html_content.append("\">here</a> to confirm your subscription.");
    Email {
        recipient: new_subscriber.email.as_str().to_owned(),
        subject: String::from_str("Welcome!"),
        html_content,
        text_content,
    }
}

/// The error for a subscriber that the store refused.
pub open spec fn insert_failure(error: StoreError) -> SubscribeErrorView {
    step_failure(
        SubscribeStep::Insert,
        ErrorChainView { message: error.message_text(), causes: Seq::empty() },
    )
}

/// What subscribing with a given form does to the store and answers, when
/// the subscriber is numbered `subscriber_id`, handed `token`, and recorded
/// at time `now`.
///
/// A refused form changes nothing. So does an address that is already
/// subscribed. Otherwise the subscriber is recorded as pending, the token is
/// stored for them, and the confirmation email is to be sent.
pub open spec fn subscribed(
    store: StoreView,
    email: Seq<char>,
    name: Seq<char>,
    base_url: Seq<char>,
    subscriber_id: u128,
    token: Seq<char>,
    now: u64,
) -> (StoreView, Result<EmailView, SubscribeErrorView>) {
    match checked_form(email, name) {
        Err(message) => (store, Err(SubscribeErrorView::ValidationError(message))),
        Ok(_) => {
            let (inserted, outcome) = store.insert_subscriber(subscriber_id, email, name, now);
            match outcome {
                Err(error) => (inserted, Err(insert_failure(error))),
                Ok(_) => (
                    inserted.store_token(subscriber_id, token),
                    Ok(confirmation_email(email, base_url, token)),
                ),
            }
        },
    }
}

/// The view of what subscribing answers.
pub open spec fn answer_view(answer: Result<Email, SubscribeError>) -> Result<
    EmailView,
    SubscribeErrorView,
> {
    match answer {
        Ok(email) => Ok(email@),
        Err(error) => Err(error@),
    }
}

/// Subscribes with everything that is not in the form given from outside:
/// the subscriber's number, their token, and the time.
pub fn subscribe_with(
    store: &mut Store,
    form: FormData,
    base_url: &ApplicationBaseUrl,
    subscriber_id: u128,
    token: &str,
    now: u64,
) -> (answer: Result<Email, SubscribeError>)
    requires
        old(store).wf(),
    ensures
        final(store).wf(),
        final(store)@ == subscribed(
            old(store)@,
            form.email@,
            form.name@,
            base_url@,
            subscriber_id,
            token@,
            now,
        ).0,
        answer_view(answer) == subscribed(
            old(store)@,
            form.email@,
            form.name@,
            base_url@,
            subscriber_id,
            token@,
            now,
        ).1,
{
    let new_subscriber = match try_from_form(form) {
        Ok(new_subscriber) => new_subscriber,
        Err(message) => {
            return Err(SubscribeError::ValidationError(message));
        },
    };
    match store.insert_subscriber(
        subscriber_id,
        new_subscriber.email.as_str(),
        new_subscriber.name.as_str(),
        now,
    ) {
        Err(error) => {
            return Err(SubscribeStep::Insert.failed(ErrorChain::new(error.message().as_str())));
        },
        Ok(_) => {},
    }
    store.store_token(subscriber_id, token);
    Ok(send_confirmation_email(&new_subscriber, base_url.0.as_str(), token))
}

/// Whether subscribing with the form takes the store from `before` to
/// `after` and answers `answer`, when the subscriber is numbered
/// `subscriber_id`, handed `token`, and recorded at time `now`.
pub open spec fn is_subscribe_outcome(
    before: StoreView,
    after: StoreView,
    answer: Result<EmailView, SubscribeErrorView>,
    email: Seq<char>,
    name: Seq<char>,
    base_url: Seq<char>,
    subscriber_id: u128,
    token: Seq<char>,
    now: u64,
) -> bool {
    (after, answer) == subscribed(before, email, name, base_url, subscriber_id, token, now)
}

/// Subscribes: checks the form, records the subscriber as pending under a
/// fresh random number with a fresh random token, and hands back the
/// confirmation email to send. The number, the token and the time are
/// drawn here; the number is that of a random UUID and the token is 25
/// letters and digits.
pub fn subscribe(store: &mut Store, form: FormData, base_url: &ApplicationBaseUrl) -> (answer:
    Result<Email, SubscribeError>)
    requires
        old(store).wf(),
    ensures
        final(store).wf(),
        exists|subscriber_id: u128, token: Seq<char>, now: u64|
            is_random_uuid(subscriber_id) && is_subscription_token(token)
                && #[trigger] is_subscribe_outcome(
                old(store)@,
                final(store)@,
                answer_view(answer),
                form.email@,
                form.name@,
                base_url@,
                subscriber_id,
                token,
                now,
            ),
{
    let subscriber_id = new_uuid();
    let token = generate_subscription_token();
    let clock = unix_time_now();
    let now: u64 = if clock < 0 {
        0
    } else {
        clock as u64
    };
    let answer = subscribe_with(store, form, base_url, subscriber_id, token.as_str(), now);
    assert(is_subscribe_outcome(
        old(store)@,
        store@,
        answer_view(answer),
        form.email@,
        form.name@,
        base_url@,
        subscriber_id,
        token@,
        now,
    ));
    answer
}


/// What the visitor is told once the confirmation email has been handed to
/// the mail service: `200 OK` if it was taken, an error if it was not.
pub fn after_confirmation_email(sent: Result<(), ErrorChain>) -> (answer: Result<
    StatusCode,
    SubscribeError,
>)
    ensures
        match sent {
            Ok(_) => answer matches Ok(status) && status@ == 200,
            Err(cause) => answer matches Err(error) && error@ == step_failure(
                SubscribeStep::Send,
                cause@,
            ),
        },
{
    match sent {
        Ok(_) => Ok(StatusCode::ok()),
        Err(cause) => Err(SubscribeStep::Send.failed(cause)),
    }
}

} // verus!
