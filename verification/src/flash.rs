//! Flash messages: short notices shown once on the next page.

use crate::response::{redirect_response, HttpResponse, ResponseView};
use vstd::prelude::*;
use vstd::string::*;
use vstd::utf8::encode_utf8;

verus! {

/// How loud a flash message is.
#[derive(Copy, Clone, Debug, PartialEq, Eq, Structural)]
pub enum Level {
    Debug,
    Info,
    Success,
    Warning,
    Error,
}

/// One flash message.
#[derive(Debug)]
pub struct FlashMessage {
    pub level: Level,
    pub message: String,
}

/// The mathematical content of a [`FlashMessage`].
pub struct FlashView {
    pub level: Level,
    pub message: Seq<char>,
}

impl View for FlashMessage {
    type V = FlashView;

    open spec fn view(&self) -> FlashView {
        FlashView { level: self.level, message: self.message@ }
    }
}

impl FlashMessage {
    /// An error message.
    pub fn error(message: &str) -> (flash: FlashMessage)
        ensures
            flash@ == (FlashView { level: Level::Error, message: message@ }),
    {
        FlashMessage { level: Level::Error, message: message.to_owned() }
    }

    /// An informational message.
    pub fn info(message: &str) -> (flash: FlashMessage)
        ensures
            flash@ == (FlashView { level: Level::Info, message: message@ }),
    {
        FlashMessage { level: Level::Info, message: message.to_owned() }
    }
}

/// The views of a list of flash messages, in order.
pub open spec fn flash_views(flashes: Seq<FlashMessage>) -> Seq<FlashView> {
    Seq::new(flashes.len(), |i: int| flashes[i]@)
}

/// Whether a message of `level` is shown when only errors are, or when all
/// are.
pub open spec fn is_shown(level: Level, only_errors: bool) -> bool {
    !only_errors || level == Level::Error
}

/// The messages as HTML, one paragraph in italics and a line break for each
/// message that is shown, in order.
pub open spec fn flash_html(flashes: Seq<FlashView>, only_errors: bool) -> Seq<char>
    decreases flashes.len(),
{
    if flashes.len() == 0 {
        Seq::empty()
    } else {
        let earlier = flash_html(flashes.drop_last(), only_errors);
        if is_shown(flashes.last().level, only_errors) {
            earlier + "<p><i>"@ + flashes.last().message + "</i></p>\n"@
        } else {
            earlier
        }
    }
}

/// Renders the messages as HTML, either all of them or only the errors.
pub fn render_flashes(flashes: &Vec<FlashMessage>, only_errors: bool) -> (html: String)
    ensures
        html@ == flash_html(flash_views(flashes@), only_errors),
{
    let mut html = String::new();
    let mut i: usize = 0;
    proof {
        assert(flash_views(flashes@).subrange(0, 0) =~= Seq::empty());
    }
    while i < flashes.len()
        invariant
            i <= flashes@.len(),
            html@ == flash_html(flash_views(flashes@).subrange(0, i as int), only_errors),
        decreases flashes@.len() - i,
    {
        proof {
            let upto = flash_views(flashes@).subrange(0, i + 1);
            assert(upto.drop_last() =~= flash_views(flashes@).subrange(0, i as int));
            assert(upto.last() == flashes@[i as int]@);
        }
        let shown = !only_errors || match flashes[i].level {
            Level::Error => true,
            _ => false,
        };
        if shown {
            html.append("<p><i>");
            html.append(flashes[i].message.as_str());
            html.append("</i></p>\n");
        }
        i += 1;
    }
    proof {
        assert(flash_views(flashes@).subrange(0, i as int) =~= flash_views(flashes@));
    }
    html
}

/// What a handler answers with: a response, and perhaps a flash message to
/// show on the page the response leads to.
#[derive(Debug)]
pub struct Reply {
    pub flash: Option<FlashMessage>,
    pub response: HttpResponse,
}

/// The mathematical content of a [`Reply`].
pub struct ReplyView {
    pub flash: Option<FlashView>,
    pub response: ResponseView,
}

impl View for Reply {
    type V = ReplyView;

    open spec fn view(&self) -> ReplyView {
        ReplyView {
            flash: match self.flash {
                Some(flash) => Some(flash@),
                None => None,
            },
            response: self.response@,
        }
    }
}

/// A redirect to `location` with no flash message.
pub open spec fn plain_redirect(location: Seq<char>) -> ReplyView {
    ReplyView { flash: None, response: redirect_response(encode_utf8(location)) }
}

/// A redirect to `location` with a flash message of `level`.
pub open spec fn flashed_redirect(level: Level, message: Seq<char>, location: Seq<char>) -> ReplyView {
    ReplyView {
        flash: Some(FlashView { level, message }),
        response: redirect_response(encode_utf8(location)),
    }
}

impl Reply {
    /// A redirect to `location` with no flash message.
    pub fn redirect(location: &str) -> (reply: Reply)
        ensures
            reply@ == plain_redirect(location@),
    {
        Reply { flash: None, response: HttpResponse::redirect(location) }
    }

    /// A redirect to `location` with an error message.
    pub fn error(message: &str, location: &str) -> (reply: Reply)
        ensures
            reply@ == flashed_redirect(Level::Error, message@, location@),
    {
        Reply {
            flash: Some(FlashMessage::error(message)),
            response: HttpResponse::redirect(location),
        }
    }

    /// A redirect to `location` with an informational message.
    pub fn info(message: &str, location: &str) -> (reply: Reply)
        ensures
            reply@ == flashed_redirect(Level::Info, message@, location@),
    {
        Reply {
            flash: Some(FlashMessage::info(message)),
            response: HttpResponse::redirect(location),
        }
    }

    /// A response with no flash message.
    pub fn plain(response: HttpResponse) -> (reply: Reply)
        ensures
            reply@ == (ReplyView { flash: None, response: response@ }),
    {
        Reply { flash: None, response }
    }
}

} // verus!
