//! The page with the form for changing the password.

use crate::flash::{flash_html, flash_views, render_flashes, FlashMessage, FlashView};
use crate::response::{html_page, html_response, HttpResponse};
use vstd::prelude::*;
use vstd::string::*;

verus! {

/// The page up to the place of the messages.
pub const PASSWORD_PAGE_HEAD: &'static str = "<!DOCTYPE html>\n        \
    <html lang=\"en\">\n        \
    <head>\n        \
    <meta http-equiv=\"content-type\" content=\"text/html; charset=utf-8\">\n        \
    <title>Change Password</title>\n        \
    </head>\n        \
    <body>\n        \
    ";

/// The page from the place of the messages on.
pub const PASSWORD_PAGE_TAIL: &'static str = "\n        \
    <form action=\"/admin/password\" method=\"post\">\n        \
    <label>Current password\n        \
    <input\n        \
    type=\"password\"\n        \
    placeholder=\"Enter current password\"\n        \
    name=\"current_password\"\n        \
    >\n        \
    </label>\n        \
    <br>\n        \
    <label>New password\n        \
    <input\n        \
    type=\"password\"\n        \
    placeholder=\"Enter new password\"\n        \
    name=\"new_password\"\n        \
    >\n        \
    </label>\n        \
    <br>\n        \
    <label>Confirm new password\n        \
    <input\n        \
    type=\"password\"\n        \
    placeholder=\"Type the new password again\"\n        \
    name=\"new_password_check\"\n        \
    >\n        \
    </label>\n        \
    <br>\n        \
    <button type=\"submit\">Change password</button>\n        \
    </form>\n        \
    <p><a href=\"/admin/dashboard\">&lt;- Back</a></p>\n        \
    </body>\n        \
    </html>";

/// The page that shows the error messages among `flashes`.
pub open spec fn password_page(flashes: Seq<FlashView>) -> Seq<char> {
    PASSWORD_PAGE_HEAD@ + flash_html(flashes, true) + PASSWORD_PAGE_TAIL@
}

/// Renders the page with the form for changing the password. Of the flash
/// messages only the errors are shown, each as a paragraph above the form.
pub fn change_password_form(flashes: &Vec<FlashMessage>) -> (response: HttpResponse)
    ensures
        response@ == html_response(password_page(flash_views(flashes@))),
{
    let mut page = String::from_str(PASSWORD_PAGE_HEAD);
    page.append(render_flashes(flashes, true).as_str());
    page.append(PASSWORD_PAGE_TAIL);
    html_page(page.as_str())
}

} // verus!
