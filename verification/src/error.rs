//! Errors as the service reports them: a message, the chain of causes
//! behind it, and the response an error turns into.

use crate::response::{HeaderView, HttpResponse, ResponseView, StatusCode};
use vstd::prelude::*;
use vstd::string::*;

verus! {

/// The texts of a list of strings, in order.
pub open spec fn messages(texts: Seq<String>) -> Seq<Seq<char>> {
    Seq::new(texts.len(), |i: int| texts[i]@)
}

/// The report of an error and its causes: the error's own message and a
/// blank line, then for each cause in turn a line `Caused by:` and the
/// cause's message on a line of its own, set in by a tab.
pub open spec fn error_chain_text(message: Seq<char>, causes: Seq<Seq<char>>) -> Seq<char>
    decreases causes.len(),
{
    if causes.len() == 0 {
        message + "\n\n"@
    } else {
        error_chain_text(message, causes.drop_last()) + "Caused by:\n\t"@ + causes.last() + "\n"@
    }
}

/// Writes out an error with the chain of causes behind it, outermost first.
pub fn error_chain_fmt(message: &str, causes: &Vec<String>) -> (report: String)
    ensures
        report@ == error_chain_text(message@, messages(causes@)),
{
    let mut report = message.to_owned();
    report.append("\n\n");
    let mut i: usize = 0;
    proof {
        assert(messages(causes@).subrange(0, 0) =~= Seq::empty());
    }
    while i < causes.len()
        invariant
            i <= causes@.len(),
            report@ == error_chain_text(message@, messages(causes@).subrange(0, i as int)),
        decreases causes@.len() - i,
    {
        proof {
            let upto = messages(causes@).subrange(0, i + 1);
            assert(upto.drop_last() =~= messages(causes@).subrange(0, i as int));
            assert(upto.last() == causes@[i as int]@);
        }
        report.append("Caused by:\n\t");
        report.append(causes[i].as_str());
        report.append("\n");
        i += 1;
    }
    proof {
        assert(messages(causes@).subrange(0, i as int) =~= messages(causes@));
    }
    report
}

/// An error with the causes behind it: its own message first, then the
/// message of what caused it, and so on down to the root.
#[derive(Debug)]
pub struct ErrorChain {
    pub message: String,
    pub causes: Vec<String>,
}

/// The mathematical content of an [`ErrorChain`].
pub struct ErrorChainView {
    pub message: Seq<char>,
    pub causes: Seq<Seq<char>>,
}

impl ErrorChainView {
    /// Every message of the chain, outermost first.
    pub open spec fn all(self) -> Seq<Seq<char>> {
        seq![self.message] + self.causes
    }
}

impl View for ErrorChain {
    type V = ErrorChainView;

    open spec fn view(&self) -> ErrorChainView {
        ErrorChainView { message: self.message@, causes: messages(self.causes@) }
    }
}

/// A fresh vector holding copies of `texts`, in order.
pub fn copy_texts(texts: &Vec<String>) -> (copy: Vec<String>)
    ensures
        messages(copy@) == messages(texts@),
{
    let mut copy: Vec<String> = Vec::new();
    let mut i: usize = 0;
    while i < texts.len()
        invariant
            i <= texts@.len(),
            copy@.len() == i,
            forall|j: int| 0 <= j < i ==> copy@[j]@ == texts@[j]@,
        decreases texts@.len() - i,
    {
        copy.push(texts[i].clone());
        i += 1;
    }
    assert(messages(copy@) =~= messages(texts@));
    copy
}

impl Clone for ErrorChain {
    fn clone(&self) -> (copy: Self)
        ensures
            copy@ == self@,
    {
        ErrorChain { message: self.message.clone(), causes: copy_texts(&self.causes) }
    }
}

impl ErrorChain {
    /// An error with no cause behind it.
    pub fn new(message: &str) -> (error: ErrorChain)
        ensures
            error@ == (ErrorChainView { message: message@, causes: Seq::empty() }),
    {
        let error = ErrorChain { message: message.to_owned(), causes: Vec::new() };
        assert(messages(error.causes@) =~= Seq::empty());
        error
    }

    /// The same error seen from one level up: `message` becomes the error's
    /// message, and what was the error becomes its first cause.
    pub fn context(self, message: &str) -> (error: ErrorChain)
        ensures
            error@ == (ErrorChainView { message: message@, causes: self@.all() }),
    {
        let ErrorChain { message: first, causes: rest } = self;
        let mut causes: Vec<String> = Vec::new();
        let ghost first_text = first@;
        causes.push(first);
        let mut i: usize = 0;
        while i < rest.len()
            invariant
                i <= rest@.len(),
                causes@.len() == i + 1,
                causes@[0]@ == first_text,
                forall|j: int| 0 <= j < i ==> causes@[j + 1]@ == rest@[j]@,
            decreases rest@.len() - i,
        {
            causes.push(rest[i].clone());
            i += 1;
        }
        assert(messages(causes@) =~= seq![first_text] + messages(rest@));
        ErrorChain { message: message.to_owned(), causes }
    }

    /// The error's own message.
    pub fn to_string(&self) -> (text: String)
        ensures
            text@ == self@.message,
    {
        self.message.clone()
    }

    /// The error written out with its causes.
    pub fn report(&self) -> (text: String)
        ensures
            text@ == error_chain_text(self@.message, self@.causes),
    {
        error_chain_fmt(self.message.as_str(), &self.causes)
    }
}

/// An error on its way to the client: the status to answer with and the
/// error behind it.
#[derive(Debug)]
pub struct ResponseError {
    status_code: StatusCode,
    internal_error: ErrorChain,
}

/// The mathematical content of a [`ResponseError`].
pub struct ResponseErrorView {
    pub status_code: u16,
    pub internal_error: ErrorChainView,
}

impl View for ResponseError {
    type V = ResponseErrorView;

    closed spec fn view(&self) -> ResponseErrorView {
        ResponseErrorView {
            status_code: self.status_code@,
            internal_error: self.internal_error@,
        }
    }
}

/// A response that carries `text` as plain text: the status, a
/// `content-type` header for UTF-8 plain text, and the text's bytes as body.
pub open spec fn plain_text_response(status_code: u16, text: Seq<char>) -> ResponseView {
    ResponseView {
        status_code,
        headers: seq![
            HeaderView {
                name: "content-type"@,
                value: vstd::utf8::encode_utf8("text/plain; charset=utf-8"@),
            },
        ],
        body: vstd::utf8::encode_utf8(text),
    }
}

/// A response that carries `text` as plain text.
pub fn plain_text(status_code: StatusCode, text: &str) -> (response: HttpResponse)
    ensures
        response@ == plain_text_response(status_code@, text@),
{
    let mut response = HttpResponse::bare(status_code);
    response.append_header(
        String::from_str("content-type"),
        "text/plain; charset=utf-8".as_bytes_vec(),
    );
    response.body = text.as_bytes_vec();
    assert(response@.headers =~= plain_text_response(status_code@, text@).headers);
    response
}

impl ResponseError {
    /// An error to be answered with `status_code`.
    pub fn new(status_code: StatusCode, internal_error: ErrorChain) -> (error: ResponseError)
        ensures
            error@ == (ResponseErrorView {
                status_code: status_code@,
                internal_error: internal_error@,
            }),
    {
        ResponseError { status_code, internal_error }
    }

    /// The same error, to be answered with `status_code` instead.
    pub fn set_status(self, status_code: StatusCode) -> (error: ResponseError)
        ensures
            error@ == (ResponseErrorView {
                status_code: status_code@,
                internal_error: self@.internal_error,
            }),
    {
        let mut error = self;
        error.status_code = status_code;
        error
    }

    /// An error of unknown kind: answered with `500 Internal Server Error`.
    pub fn from_error(internal_error: ErrorChain) -> (error: ResponseError)
        ensures
            error@ == (ResponseErrorView { status_code: 500, internal_error: internal_error@ }),
    {
        ResponseError { status_code: StatusCode::internal_server_error(), internal_error }
    }

    /// What the client is sent: the status, and the error's own message as
    /// plain text. The causes stay behind.
    pub fn into_response(self) -> (response: HttpResponse)
        ensures
            response@ == plain_text_response(self@.status_code, self@.internal_error.message),
    {
        plain_text(self.status_code, self.internal_error.message.as_str())
    }

    /// The error's own message.
    pub fn to_string(&self) -> (text: String)
        ensures
            text@ == self@.internal_error.message,
    {
        self.internal_error.to_string()
    }

    /// The error written out with its causes, for the log.
    pub fn debug_text(&self) -> (text: String)
        ensures
            text@ == error_chain_text(
                self@.internal_error.message,
                self@.internal_error.causes,
            ),
    {
        self.internal_error.report()
    }
}

} // verus!
