//! The identity of a logged-in user, and the check that every admin page
//! makes before it answers.

use crate::flash::{flashed_redirect, Level, Reply, ReplyView};
use crate::foreign::{hyphenated, uuid_text};
use vstd::prelude::*;
use vstd::string::*;

verus! {

/// The identifier of an authenticated user, as a 128-bit number.
#[derive(Copy, Clone, Debug, PartialEq, Eq, Structural)]
pub struct UserId(pub u128);

impl UserId {
    /// The identifier as a number.
    pub fn as_u128(&self) -> (value: u128)
        ensures
            value == self.0,
    {
        self.0
    }
}

impl UserId {
    /// The identifier in its usual written form: 32 hexadecimal digits in
    /// five groups.
    pub fn to_string(&self) -> (text: String)
        ensures
            text@ == hyphenated(self.0),
    {
        uuid_text(self.0)
    }
}

/// What to do with a request for an admin page.
#[derive(Debug)]
pub enum Access {
    /// The session belongs to this user: let the request through, with the
    /// user's identity attached.
    Granted(UserId),
    /// Nobody is logged in: answer with this instead.
    Denied(Reply),
}

/// What a visitor who is not logged in is answered: a redirect to the login
/// page, with an error message.
pub open spec fn anonymous_reply() -> ReplyView {
    flashed_redirect(Level::Error, "The user is not logged in."@, "/login"@)
}

/// Lets a request through to the admin pages only if its session names a
/// user; anyone else is sent to the login page.
pub fn reject_anonymous_users(session_user: Option<UserId>) -> (access: Access)
    ensures
        match session_user {
            Some(user_id) => access matches Access::Granted(granted) && granted == user_id,
            None => access matches Access::Denied(reply) && reply@ == anonymous_reply(),
        },
{
    match session_user {
        Some(user_id) => Access::Granted(user_id),
        None => Access::Denied(Reply::error("The user is not logged in.", "/login")),
    }
}

} // verus!
