//! Logging out.

use crate::authentication::middleware::UserId;
use crate::flash::{flashed_redirect, plain_redirect, Level, Reply};
use vstd::prelude::*;

verus! {

/// What logging out comes to: whether the session is to be cleared, and
/// what the visitor is answered.
#[derive(Debug)]
pub struct Logout {
    pub clear_session: bool,
    pub reply: Reply,
}

/// Logs the visitor out. With no one logged in the visitor is only sent to
/// the login page; otherwise the session is cleared and the login page
/// shows a farewell.
pub fn logout(session_user: Option<UserId>) -> (outcome: Logout)
    ensures
        outcome.clear_session == session_user is Some,
        outcome.reply@ == (match session_user {
            None => plain_redirect("/login"@),
            Some(_) => flashed_redirect(
                Level::Info,
                "You have been successfully logged out."@,
                "/login"@,
            ),
        }),
{
    match session_user {
        None => Logout { clear_session: false, reply: Reply::redirect("/login") },
        Some(_) => Logout {
            clear_session: true,
            reply: Reply::info("You have been successfully logged out.", "/login"),
        },
    }
}

} // verus!
