//! The admin dashboard.

use crate::response::{html_page, html_response, HttpResponse};
use vstd::prelude::*;
use vstd::string::*;

verus! {

/// The dashboard up to the user's name.
pub const DASHBOARD_PAGE_HEAD: &'static str = "<!DOCTYPE html>\n            \
    <html lang=\"en\">\n            \
    <head>\n                \
    <meta http-equiv=\"content-type\" content=\"text/html; charset=utf-8\">\n                \
    <title>Admin dashboard</title>\n            \
    </head>\n            \
    <body>\n                \
    <p>Welcome ";

/// The dashboard from the user's name on.
pub const DASHBOARD_PAGE_TAIL: &'static str = "!</p>\n                \
    <p>Available actions:</p>\n                \
    <ol>\n                    \
    <li><a href=\"/admin/password\">Change password</a></li>\n                    \
    <li>\n                        \
    <form name=\"logoutForm\" action=\"/admin/logout\" method=\"post\">\n                        \
    <input type=\"submit\" value=\"Logout\">\n                        \
    </form>\n                    \
    </li>\n                \
    </ol>\n            \
    </body>\n            \
    </html>";

/// The dashboard that greets `username`.
pub open spec fn dashboard_page(username: Seq<char>) -> Seq<char> {
    DASHBOARD_PAGE_HEAD@ + username + DASHBOARD_PAGE_TAIL@
}

/// Renders the dashboard for the user named `username`.
pub fn admin_dashboard(username: &str) -> (response: HttpResponse)
    ensures
        response@ == html_response(dashboard_page(username@)),
{
    let mut page = String::from_str(DASHBOARD_PAGE_HEAD);
    page.append(username);
    page.append(DASHBOARD_PAGE_TAIL);
    html_page(page.as_str())
}

} // verus!
