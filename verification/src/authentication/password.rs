//! Credentials, and the ways checking them can fail.

use crate::error::{error_chain_text, ErrorChain, ErrorChainView};
use vstd::prelude::*;
use vstd::string::*;

verus! {

/// A username and the password offered with it.
#[derive(Debug)]
pub struct Credentials {
    pub username: String,
    pub password: String,
}

/// The mathematical content of [`Credentials`].
pub struct CredentialsView {
    pub username: Seq<char>,
    pub password: Seq<char>,
}

impl View for Credentials {
    type V = CredentialsView;

    open spec fn view(&self) -> CredentialsView {
        CredentialsView { username: self.username@, password: self.password@ }
    }
}

/// Why credentials were not accepted.
#[derive(Debug)]
pub enum AuthError {
    /// The username is unknown or the password is wrong.
    InvalidCredentials(ErrorChain),
    /// The credentials could not be checked at all.
    UnexpectedError(ErrorChain),
}

/// The mathematical content of an [`AuthError`].
pub enum AuthErrorView {
    InvalidCredentials(ErrorChainView),
    UnexpectedError(ErrorChainView),
}

impl View for AuthError {
    type V = AuthErrorView;

    open spec fn view(&self) -> AuthErrorView {
        match self {
            AuthError::InvalidCredentials(cause) => AuthErrorView::InvalidCredentials(cause@),
            AuthError::UnexpectedError(cause) => AuthErrorView::UnexpectedError(cause@),
        }
    }
}

impl AuthErrorView {
    /// The error with the causes behind it. Invalid credentials carry a
    /// message of their own, with the cause beneath; an unexpected error
    /// speaks with the voice of its cause.
    pub open spec fn chain(self) -> ErrorChainView {
        match self {
            AuthErrorView::InvalidCredentials(cause) => ErrorChainView {
                message: "Invalid credentials."@,
                causes: cause.all(),
            },
            AuthErrorView::UnexpectedError(cause) => cause,
        }
    }
}

impl AuthError {
    /// The error with the causes behind it.
    pub fn into_chain(self) -> (chain: ErrorChain)
        ensures
            chain@ == self@.chain(),
    {
        match self {
            AuthError::InvalidCredentials(cause) => cause.context("Invalid credentials."),
            AuthError::UnexpectedError(cause) => cause,
        }
    }

    /// The error's own message.
    pub fn to_string(&self) -> (text: String)
        ensures
            text@ == self@.chain().message,
    {
        match self {
            AuthError::InvalidCredentials(_) => String::from_str("Invalid credentials."),
            AuthError::UnexpectedError(cause) => cause.to_string(),
        }
    }

    /// The error written out with its causes, for the log.
    pub fn debug_text(&self) -> (text: String)
        ensures
            text@ == error_chain_text(self@.chain().message, self@.chain().causes),
    {
        match self {
            AuthError::InvalidCredentials(cause) => cause.clone().context(
                "Invalid credentials.",
            ).report(),
            AuthError::UnexpectedError(cause) => cause.report(),
        }
    }
}

} // verus!
