//! The login page.

use crate::flash::{flash_html, flash_views, render_flashes, FlashMessage, FlashView};
use crate::response::{html_page, html_response, HttpResponse};
use vstd::prelude::*;
use vstd::string::*;

verus! {

/// The login page up to the place of the error messages.
pub const LOGIN_PAGE_HEAD: &'static str = "<!DOCTYPE html>\n            \
    <html lang=\"en\">\n            \
    <head>\n                \
    <meta http-equiv=\"content-type\" content=\"text/html; charset=utf-8\">\n                \
    <title>Login</title>\n            \
    </head>\n            \
    <body>\n                \
    ";

/// The login page from the place of the error messages on.
pub const LOGIN_PAGE_TAIL: &'static str = "\n                \
    <form action=\"/login\" method=\"post\">\n                    \
    <label>Username\n                        \
    <input\n                            \
    type=\"text\"\n                            \
    placeholder=\"Enter Username\"\n                            \
    name=\"username\"\n                        \
    >\n                    \
    </label>\n                    \
    <label>Password\n                        \
    <input\n                            \
    type=\"password\"\n                            \
    placeholder=\"Enter Password\"\n                            \
    name=\"password\"\n                        \
    >\n                    \
    </label>\n                    \
    <button type=\"submit\">Login</button>\n                \
    </form>\n            \
    </body>\n            \
    </html>";

/// The login page that shows the error messages among `flashes`.
pub open spec fn login_page(flashes: Seq<FlashView>) -> Seq<char> {
    LOGIN_PAGE_HEAD@ + flash_html(flashes, true) + LOGIN_PAGE_TAIL@
}

/// Renders the login page. Of the flash messages only the errors are shown,
/// each as a paragraph above the form.
pub fn login_form(flashes: &Vec<FlashMessage>) -> (response: HttpResponse)
    ensures
        response@ == html_response(login_page(flash_views(flashes@))),
{
    let mut page = String::from_str(LOGIN_PAGE_HEAD);
    page.append(render_flashes(flashes, true).as_str());
    page.append(LOGIN_PAGE_TAIL);
    html_page(page.as_str())
}

} // verus!
