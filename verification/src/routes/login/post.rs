//! Answering a login attempt.

use crate::authentication::middleware::UserId;
use crate::authentication::password::{AuthError, AuthErrorView, Credentials, CredentialsView};
use crate::error::{error_chain_text, ErrorChain, ErrorChainView};
use crate::flash::{flashed_redirect, Level, Reply, ReplyView};
use crate::foreign::{percent_encode, percent_encoded};
use crate::response::{redirect_response, HttpResponse};
use vstd::prelude::*;
use vstd::string::*;
use vstd::utf8::encode_utf8;

verus! {

/// What the login form submits.
#[derive(Debug)]
pub struct FormData {
    pub username: String,
    pub password: String,
}

/// Why a login attempt failed.
#[derive(Debug)]
pub enum LoginError {
    /// The credentials were not accepted.
    AuthError(ErrorChain),
    /// The credentials could not be checked.
    UnexpectedError(ErrorChain),
}

/// The mathematical content of a [`LoginError`].
pub enum LoginErrorView {
    AuthError(ErrorChainView),
    UnexpectedError(ErrorChainView),
}

impl View for LoginError {
    type V = LoginErrorView;

    open spec fn view(&self) -> LoginErrorView {
        match self {
            LoginError::AuthError(cause) => LoginErrorView::AuthError(cause@),
            LoginError::UnexpectedError(cause) => LoginErrorView::UnexpectedError(cause@),
        }
    }
}

impl LoginErrorView {
    /// The error's own message. It says no more than the visitor may know.
    pub open spec fn message(self) -> Seq<char> {
        match self {
            LoginErrorView::AuthError(_) => "Authentication failed"@,
            LoginErrorView::UnexpectedError(_) => "Something went wrong"@,
        }
    }

    /// The messages of the causes behind the error, nearest first.
    pub open spec fn causes(self) -> Seq<Seq<char>> {
        match self {
            LoginErrorView::AuthError(cause) => cause.all(),
            LoginErrorView::UnexpectedError(cause) => cause.all(),
        }
    }

    /// Where the visitor is sent: back to the login page, with the message
    /// percent-encoded in the query.
    pub open spec fn location(self) -> Seq<char> {
        "/login?error="@ + percent_encoded(encode_utf8(self.message()))
    }
}

impl LoginError {
    /// The login error that a failed check of credentials becomes, with the
    /// check's error kept as the cause.
    pub fn from_auth(error: AuthError) -> (converted: LoginError)
        ensures
            converted@ == (match error@ {
                AuthErrorView::InvalidCredentials(_) => LoginErrorView::AuthError(error@.chain()),
                AuthErrorView::UnexpectedError(_) => LoginErrorView::UnexpectedError(
                    error@.chain(),
                ),
            }),
    {
        match error {
            AuthError::InvalidCredentials(cause) => LoginError::AuthError(
                AuthError::InvalidCredentials(cause).into_chain(),
            ),
            AuthError::UnexpectedError(cause) => LoginError::UnexpectedError(
                AuthError::UnexpectedError(cause).into_chain(),
            ),
        }
    }

    /// The error's own message.
    pub fn to_string(&self) -> (text: String)
        ensures
            text@ == self@.message(),
    {
        match self {
            LoginError::AuthError(_) => String::from_str("Authentication failed"),
            LoginError::UnexpectedError(_) => String::from_str("Something went wrong"),
        }
    }

    /// The error written out with its causes, for the log.
    pub fn debug_text(&self) -> (text: String)
        ensures
            text@ == error_chain_text(self@.message(), self@.causes()),
    {
        match self {
            LoginError::AuthError(cause) => cause.clone().context("Authentication failed").report(),
            LoginError::UnexpectedError(cause) => cause.clone().context(
                "Something went wrong",
            ).report(),
        }
    }

    /// What the visitor is sent: a `303 See Other` back to the login page,
    /// with the message percent-encoded in the query.
    pub fn into_response(self) -> (response: HttpResponse)
        ensures
            response@ == redirect_response(encode_utf8(self@.location())),
    {
        let message = self.to_string();
        let location = String::from_str("/login?error=").concat(
            percent_encode(message.as_str()).as_str(),
        );
        HttpResponse::redirect(location.as_str())
    }
}

/// The credentials a login form offers.
pub fn credentials(form: FormData) -> (offered: Credentials)
    ensures
        offered@ == (CredentialsView { username: form.username@, password: form.password@ }),
{
    Credentials { username: form.username, password: form.password }
}

/// The view of a check of credentials.
pub open spec fn checked_view(checked: Result<UserId, AuthError>) -> Result<UserId, AuthErrorView> {
    match checked {
        Ok(user_id) => Ok(user_id),
        Err(error) => Err(error@),
    }
}

/// What a login attempt is answered with, given how the check of its
/// credentials ended: on success a redirect to the dashboard, on failure a
/// redirect back to the login page with the error's message as a flash.
pub open spec fn login_reply(checked: Result<UserId, AuthErrorView>) -> ReplyView {
    match checked {
        Ok(_) => ReplyView {
            flash: None,
            response: redirect_response(encode_utf8("/admin/dashboard"@)),
        },
        Err(AuthErrorView::InvalidCredentials(_)) => flashed_redirect(
            Level::Error,
            "Authentication failed"@,
            "/login"@,
        ),
        Err(AuthErrorView::UnexpectedError(_)) => flashed_redirect(
            Level::Error,
            "Something went wrong"@,
            "/login"@,
        ),
    }
}

/// Answers a login attempt, given how the check of its credentials ended.
/// The answer is `Ok` exactly when the check succeeded.
pub fn login(checked: Result<UserId, AuthError>) -> (answer: Result<Reply, Reply>)
    ensures
        answer is Ok <==> checked is Ok,
        match answer {
            Ok(reply) => reply@ == login_reply(checked_view(checked)),
            Err(reply) => reply@ == login_reply(checked_view(checked)),
        },
{
    match checked {
        Ok(_) => Ok(Reply::redirect("/admin/dashboard")),
        Err(error) => {
            let error = LoginError::from_auth(error);
            let message = error.to_string();
            Err(Reply::error(message.as_str(), "/login"))
        },
    }
}

} // verus!
