//! Changing the password: the form is screened, the current password is
//! checked, and only then is the new one stored. The lookups and the
//! storing are done by the caller; what to do next, and what to answer, is
//! decided here.

use crate::authentication::middleware::UserId;
use crate::authentication::password::{AuthError, AuthErrorView, Credentials, CredentialsView};
use crate::error::{plain_text_response, ErrorChain, ResponseError};
use crate::flash::{flashed_redirect, plain_redirect, Level, Reply, ReplyView};
use vstd::prelude::*;
use vstd::string::*;

verus! {

/// The least number of bytes a new password must hold.
pub const MIN_PASSWORD_LENGTH: usize = 12;

/// The number of bytes a new password must stay under.
pub const PASSWORD_LENGTH_LIMIT: usize = 128;

/// What the password form submits.
#[derive(Debug)]
pub struct FormData {
    pub current_password: String,
    pub new_password: String,
    pub new_password_check: String,
}

/// How far a change of password has come.
#[derive(Debug)]
pub enum Progress {
    /// The form has arrived.
    Submitted(FormData),
    /// The form is in order; the user's name is being looked up.
    FindingUser { user_id: UserId, current_password: String, new_password: String },
    /// The current password is being checked.
    CheckingPassword { user_id: UserId, new_password: String },
    /// The new password is being stored.
    Storing,
    /// The visitor has been answered.
    Done,
}

/// What has just happened.
#[derive(Debug)]
pub enum Event {
    /// The session was read: it names this user, or none.
    Session(Option<UserId>),
    /// The user's name was looked up.
    Username(Result<String, ErrorChain>),
    /// The current password was checked.
    Checked(Result<UserId, AuthError>),
    /// The new password was stored.
    Stored(Result<(), ErrorChain>),
}

/// What the caller is to do next.
#[derive(Debug)]
pub enum Action {
    /// Look up the name of this user.
    FindUsername(UserId),
    /// Check these credentials.
    CheckCredentials(Credentials),
    /// Store this password for this user.
    StorePassword { user_id: UserId, new_password: String },
    /// Answer the visitor.
    Answer(Reply),
}

/// The answer to a visitor whose request cannot go on because of an error
/// with the message `message`: `500 Internal Server Error`, with the
/// message as plain text.
pub open spec fn failure_reply(message: Seq<char>) -> ReplyView {
    ReplyView { flash: None, response: plain_text_response(500, message) }
}

/// The answer that sends the visitor back to the form with an error.
pub open spec fn back_to_form(message: Seq<char>) -> ReplyView {
    flashed_redirect(Level::Error, message, "/admin/password"@)
}

/// What screening a form comes to: the answer that turns it down, or
/// nothing if it may go on.
///
/// A visitor who is not logged in is sent to the login page. Two different
/// new passwords, a new password under 12 bytes, and one of 128 bytes or
/// more are each sent back to the form with a message, in this order.
pub open spec fn screening(
    session_user: Option<UserId>,
    new_password: Seq<char>,
    new_password_check: Seq<char>,
) -> Option<ReplyView> {
    let length = vstd::utf8::encode_utf8(new_password).len();
    if session_user is None {
        Some(plain_redirect("/login"@))
    } else if new_password != new_password_check {
        Some(
            back_to_form(
                "You entered two different new passwords - the field values must match."@,
            ),
        )
    } else if length < MIN_PASSWORD_LENGTH {
        Some(back_to_form("Password needs to be at least 12 characters."@))
    } else if length >= PASSWORD_LENGTH_LIMIT {
        Some(back_to_form("Password must be less than 128 characters."@))
    } else {
        None
    }
}

/// Whether `next` ends the request with `reply`.
pub open spec fn is_answer(next: (Progress, Action), reply: ReplyView) -> bool {
    &&& next.0 is Done
    &&& next.1 matches Action::Answer(answer) && answer@ == reply
}

/// Whether `next` goes on to look up the name of `user_id`, keeping both
/// passwords.
pub open spec fn asks_for_username(
    next: (Progress, Action),
    user_id: UserId,
    current_password: Seq<char>,
    new_password: Seq<char>,
) -> bool {
    &&& next.0 matches Progress::FindingUser { user_id: kept, current_password: current, new_password: new }
        && (kept == user_id && current@ == current_password && new@ == new_password)
    &&& next.1 matches Action::FindUsername(wanted) && wanted == user_id
}

/// Whether `next` goes on to check the current password under `username`,
/// keeping the new one.
pub open spec fn asks_for_check(
    next: (Progress, Action),
    user_id: UserId,
    username: Seq<char>,
    current_password: Seq<char>,
    new_password: Seq<char>,
) -> bool {
    &&& next.0 matches Progress::CheckingPassword { user_id: kept, new_password: new } && (kept
        == user_id && new@ == new_password)
    &&& next.1 matches Action::CheckCredentials(offered) && offered@ == (CredentialsView {
        username,
        password: current_password,
    })
}

/// Whether `next` goes on to store `new_password` for `user_id`.
pub open spec fn asks_to_store(next: (Progress, Action), user_id: UserId, new_password: Seq<char>) -> bool {
    &&& next.0 is Storing
    &&& next.1 matches Action::StorePassword { user_id: kept, new_password: new } && (kept
        == user_id && new@ == new_password)
}

/// The answer to a request that cannot go on because of `error`.
fn failure(error: ErrorChain) -> (reply: Reply)
    ensures
        reply@ == failure_reply(error@.message),
{
    Reply::plain(ResponseError::from_error(error).into_response())
}

/// Takes a change of password one step on: given how far it has come and
/// what has just happened, says what to do next.
///
/// The form is screened first. Then the user's name is looked up, the
/// current password is checked under that name, and the new password is
/// stored. A wrong current password sends the visitor back to the form;
/// any other failure is answered with `500 Internal Server Error`; success
/// sends the visitor back to the form with the news. An event that does
/// not belong to the step in progress ends the request with a `500`.
pub fn change_password(progress: Progress, event: Event) -> (next: (Progress, Action))
    ensures
        match (progress, event) {
            (Progress::Submitted(form), Event::Session(session_user)) => match screening(
                session_user,
                form.new_password@,
                form.new_password_check@,
            ) {
                Some(reply) => is_answer(next, reply),
                None => session_user is Some && asks_for_username(
                    next,
                    session_user->0,
                    form.current_password@,
                    form.new_password@,
                ),
            },
            (
                Progress::FindingUser { user_id, current_password, new_password },
                Event::Username(Ok(username)),
            ) => asks_for_check(next, user_id, username@, current_password@, new_password@),
            (Progress::FindingUser { .. }, Event::Username(Err(error))) => is_answer(
                next,
                failure_reply(error@.message),
            ),
            (
                Progress::CheckingPassword { user_id, new_password },
                Event::Checked(Ok(_)),
            ) => asks_to_store(next, user_id, new_password@),
            (Progress::CheckingPassword { .. }, Event::Checked(Err(error))) => is_answer(
                next,
                match error@ {
                    AuthErrorView::InvalidCredentials(_) => back_to_form(
                        "The current password is incorrect."@,
                    ),
                    AuthErrorView::UnexpectedError(cause) => failure_reply(cause.message),
                },
            ),
            (Progress::Storing, Event::Stored(Ok(_))) => is_answer(
                next,
                back_to_form("Your password has been changed."@),
            ),
            (Progress::Storing, Event::Stored(Err(error))) => is_answer(
                next,
                failure_reply(error@.message),
            ),
            _ => is_answer(next, failure_reply("The request took an unexpected turn."@)),
        },
{
    match (progress, event) {
        (Progress::Submitted(form), Event::Session(session_user)) => {
            let user_id = match session_user {
                None => {
                    return (Progress::Done, Action::Answer(Reply::redirect("/login")));
                },
                Some(user_id) => user_id,
            };
            if form.new_password != form.new_password_check {
                return (
                    Progress::Done,
                    Action::Answer(
                        Reply::error(
                            "You entered two different new passwords - the field values must match.",
                            "/admin/password",
                        ),
                    ),
                );
            }
            let length = form.new_password.as_str().as_bytes().len();
            if length < MIN_PASSWORD_LENGTH {
                return (
                    Progress::Done,
                    Action::Answer(
                        Reply::error(
                            "Password needs to be at least 12 characters.",
                            "/admin/password",
                        ),
                    ),
                );
            }
            if length >= PASSWORD_LENGTH_LIMIT {
                return (
                    Progress::Done,
                    Action::Answer(
                        Reply::error("Password must be less than 128 characters.", "/admin/password"),
                    ),
                );
            }
            (
                Progress::FindingUser {
                    user_id,
                    current_password: form.current_password,
                    new_password: form.new_password,
                },
                Action::FindUsername(user_id),
            )
        },
        (
            Progress::FindingUser { user_id, current_password, new_password },
            Event::Username(Ok(username)),
        ) => (
            Progress::CheckingPassword { user_id, new_password },
            Action::CheckCredentials(Credentials { username, password: current_password }),
        ),
        (Progress::FindingUser { .. }, Event::Username(Err(error))) => (
            Progress::Done,
            Action::Answer(failure(error)),
        ),
        (Progress::CheckingPassword { user_id, new_password }, Event::Checked(Ok(_))) => (
            Progress::Storing,
            Action::StorePassword { user_id, new_password },
        ),
        (Progress::CheckingPassword { .. }, Event::Checked(Err(error))) => match error {
            AuthError::InvalidCredentials(_) => (
                Progress::Done,
                Action::Answer(
                    Reply::error("The current password is incorrect.", "/admin/password"),
                ),
            ),
            AuthError::UnexpectedError(cause) => (Progress::Done, Action::Answer(failure(cause))),
        },
        (Progress::Storing, Event::Stored(Ok(_))) => (
            Progress::Done,
            Action::Answer(Reply::error("Your password has been changed.", "/admin/password")),
        ),
        (Progress::Storing, Event::Stored(Err(error))) => (
            Progress::Done,
            Action::Answer(failure(error)),
        ),
        _ => (
            Progress::Done,
            Action::Answer(failure(ErrorChain::new("The request took an unexpected turn."))),
        ),
    }
}

} // verus!
