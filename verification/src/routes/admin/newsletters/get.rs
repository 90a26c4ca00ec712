//! The page with the form for publishing an issue. Every rendering of the
//! form carries a fresh idempotency key, so that submitting the same form
//! twice publishes once.

use crate::flash::{flash_html, flash_views, render_flashes, FlashMessage, FlashView};
use crate::foreign::{hyphenated, is_random_uuid, new_uuid, uuid_text};
use crate::idempotency::key::{is_valid_key, IdempotencyKey};
use crate::response::{html_page, html_response, HttpResponse};
use vstd::prelude::*;
use vstd::string::*;

verus! {

/// The page up to the place of the messages.
pub const NEWSLETTER_PAGE_HEAD: &'static str = "<!DOCTYPE html>\n        \
    <html lang=\"en\">\n        \
    <head>\n            \
    <meta http-equiv=\"content-type\" content=\"text/html; charset=utf-8\">\n            \
    <title>Change Password</title>\n        \
    </head>\n        \
    <body>\n        \
    ";

/// The page between the messages and the idempotency key.
pub const NEWSLETTER_PAGE_FORM: &'static str = "\n        \
    <form action=\"/admin/newsletters\" method=\"post\">\n            \
    <label>Title\n                \
    <input\n                    \
    type=\"text\"\n                    \
    placeholder=\"Enter newsletter title\"\n                    \
    name=\"title\"\n                \
    >\n            \
    </label>\n            \
    <br>\n            \
    <label>Contents\n                \
    <input\n                    \
    type=\"text\"\n                    \
    placeholder=\"Enter content in HTML form\"\n                    \
    name=\"html\"\n                \
    >\n            \
    </label>\n            \
    <br>\n            \
    <label>Contents raw text\n                \
    <input\n                    \
    type=\"text\"\n                    \
    placeholder=\"Enter content in text form\"\n                    \
    name=\"text\"\n                \
    >\n            \
    </label>\n            \
    <br>\n            \
    <input hidden type=\"text\" name=\"idempotency_key\" value=\"";

/// The page from the idempotency key on.
pub const NEWSLETTER_PAGE_TAIL: &'static str = "\">\n            \
    <button type=\"submit\">Publish newsletter</button>\n        \
    </form>\n        \
    <p><a href=\"/admin/dashboard\">&lt;- Back</a></p>\n        \
    </body>\n        \
    </html>";

/// The page that shows `flashes` and carries `idempotency_key` in a hidden
/// field of its form.
pub open spec fn newsletter_page(flashes: Seq<FlashView>, idempotency_key: Seq<char>) -> Seq<char> {
    NEWSLETTER_PAGE_HEAD@ + flash_html(flashes, false) + NEWSLETTER_PAGE_FORM@ + idempotency_key
        + NEWSLETTER_PAGE_TAIL@
}

/// A fresh idempotency key: a random UUID in its hyphenated form, which is
/// always a valid key.
pub fn fresh_idempotency_key() -> (key: IdempotencyKey)
    ensures
        exists|value: u128| is_random_uuid(value) && key@ == #[trigger] hyphenated(value),
{
    let value = new_uuid();
    match IdempotencyKey::parse(uuid_text(value)) {
        Ok(key) => key,
        Err(_) => {
            assert(is_valid_key(hyphenated(value)));
            assert(false);
            vstd::pervasive::unreached()
        },
    }
}

/// Renders the page with `idempotency_key` in its form. Every flash
/// message is shown, each as a paragraph above the form.
pub fn publish_newsletter_form_with(flashes: &Vec<FlashMessage>, idempotency_key: &str) -> (response:
    HttpResponse)
    ensures
        response@ == html_response(newsletter_page(flash_views(flashes@), idempotency_key@)),
{
    let mut page = String::from_str(NEWSLETTER_PAGE_HEAD);
    page.append(render_flashes(flashes, false).as_str());
    page.append(NEWSLETTER_PAGE_FORM);
    page.append(idempotency_key);
    page.append(NEWSLETTER_PAGE_TAIL);
    html_page(page.as_str())
}

/// Renders the page with a fresh idempotency key in its form.
pub fn publish_newsletter_form(flashes: &Vec<FlashMessage>) -> (response: HttpResponse)
    ensures
        exists|value: u128|
            is_random_uuid(value) && response@ == html_response(
                newsletter_page(flash_views(flashes@), #[trigger] hyphenated(value)),
            ),
{
    let key = fresh_idempotency_key();
    publish_newsletter_form_with(flashes, key.as_str())
}

} // verus!
