//! Publishing over the API: the caller proves who they are with HTTP Basic
//! authentication, and the issue goes out to every confirmed subscriber
//! whose stored address is still valid.

use crate::authentication::middleware::UserId;
use crate::authentication::password::{AuthError, AuthErrorView, Credentials, CredentialsView};
use crate::domain::{is_valid_email, SubscriberEmail};
use crate::email_client::{Email, EmailView};
use crate::error::{error_chain_text, messages, ErrorChain, ErrorChainView};
use crate::foreign::{base64_decoded, decode_base64, string_from_utf8};
use crate::response::{bare_response, HeaderView, HttpResponse, ResponseView, StatusCode};
use crate::text::to_chars;
use vstd::prelude::*;
use vstd::string::*;
use vstd::utf8::{decode_utf8, valid_utf8};

verus! {

/// What the API's publish request carries.
#[derive(Debug)]
pub struct BodyData {
    pub title: String,
    pub content: Content,
}

/// The two renderings of an issue.
#[derive(Debug)]
pub struct Content {
    pub html: String,
    pub text: String,
}

/// Why publishing over the API failed.
#[derive(Debug)]
pub enum PublishError {
    /// The caller did not prove who they are.
    AuthError(ErrorChain),
    /// Something else went wrong.
    UnexpectedError(ErrorChain),
}

/// The mathematical content of a [`PublishError`].
pub enum PublishErrorView {
    AuthError(ErrorChainView),
    UnexpectedError(ErrorChainView),
}

impl View for PublishError {
    type V = PublishErrorView;

    open spec fn view(&self) -> PublishErrorView {
        match self {
            PublishError::AuthError(cause) => PublishErrorView::AuthError(cause@),
            PublishError::UnexpectedError(cause) => PublishErrorView::UnexpectedError(cause@),
        }
    }
}

/// The response that asks the caller to authenticate: `401 Unauthorized`
/// with a challenge for the realm `publish`.
pub open spec fn challenge_response() -> ResponseView {
    ResponseView {
        status_code: 401,
        headers: seq![
            HeaderView {
                name: "www-authenticate"@,
                value: vstd::utf8::encode_utf8("Basic realm=\"publish\""@),
            },
        ],
        body: Seq::empty(),
    }
}

impl PublishErrorView {
    /// The error's own message: a fixed one for a failed authentication,
    /// the cause's for anything else.
    pub open spec fn message(self) -> Seq<char> {
        match self {
            PublishErrorView::AuthError(_) => "Authentication failed"@,
            PublishErrorView::UnexpectedError(cause) => cause.message,
        }
    }

    /// The messages of the causes behind the error, nearest first.
    pub open spec fn causes(self) -> Seq<Seq<char>> {
        match self {
            PublishErrorView::AuthError(cause) => cause.all(),
            PublishErrorView::UnexpectedError(cause) => cause.causes,
        }
    }

    /// What the caller is sent.
    pub open spec fn response(self) -> ResponseView {
        match self {
            PublishErrorView::AuthError(_) => challenge_response(),
            PublishErrorView::UnexpectedError(_) => bare_response(500),
        }
    }
}

impl PublishError {
    /// The error's own message.
    pub fn to_string(&self) -> (text: String)
        ensures
            text@ == self@.message(),
    {
        match self {
            PublishError::AuthError(_) => String::from_str("Authentication failed"),
            PublishError::UnexpectedError(cause) => cause.to_string(),
        }
    }

    /// The error written out with its causes, for the log.
    pub fn debug_text(&self) -> (text: String)
        ensures
            text@ == error_chain_text(self@.message(), self@.causes()),
    {
        match self {
            PublishError::AuthError(cause) => cause.clone().context(
                "Authentication failed",
            ).report(),
            PublishError::UnexpectedError(cause) => cause.report(),
        }
    }

    /// What the caller is sent: a challenge after a failed authentication,
    /// and a bare `500 Internal Server Error` after anything else.
    pub fn into_response(self) -> (response: HttpResponse)
        ensures
            response@ == self@.response(),
    {
        match self {
            PublishError::UnexpectedError(_) => HttpResponse::bare(
                StatusCode::internal_server_error(),
            ),
            PublishError::AuthError(_) => {
                let mut response = HttpResponse::bare(StatusCode::unauthorized());
                response.append_header(
                    String::from_str("www-authenticate"),
                    "Basic realm=\"publish\"".as_bytes_vec(),
                );
                assert(response@.headers =~= challenge_response().headers);
                response
            },
        }
    }

    /// The publish error that a failed check of credentials becomes: invalid
    /// credentials are a failed authentication, anything else is unexpected.
    /// Either way the check's error is kept as the cause.
    pub fn from_auth(error: AuthError) -> (converted: PublishError)
        ensures
            converted@ == (match error@ {
                AuthErrorView::InvalidCredentials(_) => PublishErrorView::AuthError(
                    error@.chain(),
                ),
                AuthErrorView::UnexpectedError(_) => PublishErrorView::UnexpectedError(
                    error@.chain(),
                ),
            }),
    {
        match error {
            AuthError::InvalidCredentials(cause) => PublishError::AuthError(
                AuthError::InvalidCredentials(cause).into_chain(),
            ),
            AuthError::UnexpectedError(cause) => PublishError::UnexpectedError(
                AuthError::UnexpectedError(cause).into_chain(),
            ),
        }
    }

    /// The publish error for an issue that could not be sent to `recipient`.
    pub fn from_failed_delivery(recipient: &SubscriberEmail, cause: ErrorChain) -> (error:
        PublishError)
        ensures
            error@ == PublishErrorView::UnexpectedError(
                ErrorChainView {
                    message: "Failed to send newsletter issue to "@ + recipient@,
                    causes: cause@.all(),
                },
            ),
    {
        let message = String::from_str("Failed to send newsletter issue to ").concat(
            recipient.as_str(),
        );
        PublishError::UnexpectedError(cause.context(message.as_str()))
    }
}

/// Why a request carried no usable Basic credentials.
#[derive(Copy, Clone, Debug, PartialEq, Eq, Structural)]
pub enum BasicAuthError {
    /// There is no `Authorization` header.
    MissingHeader,
    /// The header holds bytes that are not visible ASCII.
    NotText,
    /// The header does not start with `Basic `.
    NotBasic,
    /// What follows `Basic ` is not base64.
    NotBase64,
    /// The decoded bytes are not UTF-8.
    NotUtf8,
    /// The decoded text holds no colon, so no password.
    MissingPassword,
}

impl BasicAuthError {
    /// The message for this error.
    pub open spec fn message_text(self) -> Seq<char> {
        match self {
            BasicAuthError::MissingHeader => "The 'Authorization' header was missing"@,
            BasicAuthError::NotText => "The 'Authorization' header was not a valid UTF8 string"@,
            BasicAuthError::NotBasic => "The authorization scheme was not 'Basic'."@,
            BasicAuthError::NotBase64 => "Failed to base64-decode 'Basic' credentials."@,
            BasicAuthError::NotUtf8 => "The decoded credential string is not valid UTF8"@,
            BasicAuthError::MissingPassword => "A password must be provided in 'Basic' auth."@,
        }
    }

    /// The message for this error.
    pub fn message(&self) -> (text: String)
        ensures
            text@ == self.message_text(),
    {
        match self {
            BasicAuthError::MissingHeader => String::from_str(
                "The 'Authorization' header was missing",
            ),
            BasicAuthError::NotText => String::from_str(
                "The 'Authorization' header was not a valid UTF8 string",
            ),
            BasicAuthError::NotBasic => String::from_str(
                "The authorization scheme was not 'Basic'.",
            ),
            BasicAuthError::NotBase64 => String::from_str(
                "Failed to base64-decode 'Basic' credentials.",
            ),
            BasicAuthError::NotUtf8 => String::from_str(
                "The decoded credential string is not valid UTF8",
            ),
            BasicAuthError::MissingPassword => String::from_str(
                "A password must be provided in 'Basic' auth.",
            ),
        }
    }

    /// The publish error this becomes: a failed authentication, with the
    /// message as its cause.
    pub fn into_publish_error(self) -> (error: PublishError)
        ensures
            error@ == PublishErrorView::AuthError(
                ErrorChainView { message: self.message_text(), causes: Seq::empty() },
            ),
    {
        let message = self.message();
        PublishError::AuthError(ErrorChain::new(message.as_str()))
    }
}

/// Whether `byte` may stand in a header that is read as text: visible
/// ASCII, a space or a tab.
pub open spec fn is_header_text_byte(byte: u8) -> bool {
    32 <= byte < 127 || byte == 9
}

/// Whether every byte of `bytes` may stand in a header read as text.
pub open spec fn is_header_text(bytes: Seq<u8>) -> bool {
    forall|i: int| 0 <= i < bytes.len() ==> is_header_text_byte(#[trigger] bytes[i])
}

/// The bytes of `Basic `, the scheme's name and the space after it.
pub open spec fn basic_prefix() -> Seq<u8> {
    seq![66u8, 97u8, 115u8, 105u8, 99u8, 32u8]
}

/// Whether `bytes` starts with `Basic `.
pub open spec fn has_basic_prefix(bytes: Seq<u8>) -> bool {
    bytes.len() >= 6 && bytes.subrange(0, 6) == basic_prefix()
}

/// Whether the first colon of `text` stands at `i`.
pub open spec fn is_first_colon(text: Seq<char>, i: int) -> bool {
    &&& 0 <= i < text.len()
    &&& text[i] == ':'
    &&& forall|j: int| 0 <= j < i ==> #[trigger] text[j] != ':'
}

/// The credentials in `text`: the username is what stands before the first
/// colon, the password all that stands after it. Text without a colon holds
/// no password.
pub open spec fn split_credentials(text: Seq<char>) -> Result<CredentialsView, BasicAuthError> {
    if exists|i: int| is_first_colon(text, i) {
        let i = choose|i: int| is_first_colon(text, i);
        Ok(
            CredentialsView {
                username: text.subrange(0, i),
                password: text.subrange(i + 1, text.len() as int),
            },
        )
    } else {
        Err(BasicAuthError::MissingPassword)
    }
}

/// The credentials in the decoded bytes of a Basic header.
pub open spec fn credentials_in(decoded: Seq<u8>) -> Result<CredentialsView, BasicAuthError> {
    if valid_utf8(decoded) {
        split_credentials(decode_utf8(decoded))
    } else {
        Err(BasicAuthError::NotUtf8)
    }
}

/// The credentials a request carries, given the bytes of its
/// `Authorization` header if it has one.
pub open spec fn basic_credentials(header: Option<Seq<u8>>) -> Result<
    CredentialsView,
    BasicAuthError,
> {
    match header {
        None => Err(BasicAuthError::MissingHeader),
        Some(bytes) => if !is_header_text(bytes) {
            Err(BasicAuthError::NotText)
        } else if !has_basic_prefix(bytes) {
            Err(BasicAuthError::NotBasic)
        } else {
            match base64_decoded(bytes.subrange(6, bytes.len() as int)) {
                None => Err(BasicAuthError::NotBase64),
                Some(decoded) => credentials_in(decoded),
            }
        },
    }
}

/// Reads the credentials out of the decoded bytes of a Basic header. Fails
/// when the bytes are not UTF-8, or when the text holds no colon.
pub fn credentials_from_decoded(decoded: Vec<u8>) -> (outcome: Result<Credentials, BasicAuthError>)
    ensures
        match outcome {
            Ok(credentials) => credentials_in(decoded@) == Ok::<CredentialsView, BasicAuthError>(
                credentials@,
            ),
            Err(error) => credentials_in(decoded@) == Err::<CredentialsView, BasicAuthError>(
                error,
            ),
        },
{
    let ghost bytes = decoded@;
    let text = match string_from_utf8(decoded) {
        None => {
            return Err(BasicAuthError::NotUtf8);
        },
        Some(text) => text,
    };
    let chars = to_chars(text.as_str());
    let mut i: usize = 0;
    while i < chars.len()
        invariant
            i <= chars@.len(),
            chars@ == text@,
            bytes == decoded@,
            valid_utf8(bytes),
            text@ == decode_utf8(bytes),
            forall|j: int| 0 <= j < i ==> #[trigger] chars@[j] != ':',
        decreases chars@.len() - i,
    {
        if chars[i] == ':' {
            proof {
                assert(is_first_colon(text@, i as int));
                let chosen = choose|j: int| is_first_colon(text@, j);
                assert(is_first_colon(text@, chosen));
                assert(chosen == i);
            }
            let username = text.as_str().substring_char(0, i).to_owned();
            let password = text.as_str().substring_char(i + 1, chars.len()).to_owned();
            return Ok(Credentials { username, password });
        }
        i += 1;
    }
    proof {
        if exists|j: int| is_first_colon(text@, j) {
            let j = choose|j: int| is_first_colon(text@, j);
            assert(text@[j] != ':');
        }
    }
    Err(BasicAuthError::MissingPassword)
}

/// The view of a header that may be absent.
pub open spec fn header_view(header: Option<&Vec<u8>>) -> Option<Seq<u8>> {
    match header {
        Some(bytes) => Some(bytes@),
        None => None,
    }
}

/// Reads the credentials of a request out of its `Authorization` header.
///
/// The header must be there, hold only visible ASCII, start with `Basic `
/// and go on with the base64 encoding of `username:password`.
pub fn basic_authentication(authorization: Option<&Vec<u8>>) -> (outcome: Result<
    Credentials,
    BasicAuthError,
>)
    ensures
        match outcome {
            Ok(credentials) => basic_credentials(header_view(authorization)) == Ok::<
                CredentialsView,
                BasicAuthError,
            >(credentials@),
            Err(error) => basic_credentials(header_view(authorization)) == Err::<
                CredentialsView,
                BasicAuthError,
            >(error),
        },
{
    let bytes = match authorization {
        None => {
            return Err(BasicAuthError::MissingHeader);
        },
        Some(bytes) => bytes,
    };
    let mut i: usize = 0;
    while i < bytes.len()
        invariant
            i <= bytes@.len(),
            authorization == Some(bytes),
            forall|j: int| 0 <= j < i ==> is_header_text_byte(#[trigger] bytes@[j]),
        decreases bytes@.len() - i,
    {
        let byte = bytes[i];
        if !((32 <= byte && byte < 127) || byte == 9) {
            assert(!is_header_text_byte(bytes@[i as int]));
            return Err(BasicAuthError::NotText);
        }
        i += 1;
    }
    if bytes.len() < 6 || bytes[0] != 66 || bytes[1] != 97 || bytes[2] != 115 || bytes[3] != 105
        || bytes[4] != 99 || bytes[5] != 32 {
        proof {
            if has_basic_prefix(bytes@) {
                let prefix = bytes@.subrange(0, 6);
                assert(prefix[0] == 66 && prefix[1] == 97 && prefix[2] == 115 && prefix[3] == 105
                    && prefix[4] == 99 && prefix[5] == 32);
            }
        }
        return Err(BasicAuthError::NotBasic);
    }
    assert(bytes@.subrange(0, 6) =~= basic_prefix());
    let mut segment: Vec<u8> = Vec::new();
    let mut k: usize = 6;
    while k < bytes.len()
        invariant
            6 <= k <= bytes@.len(),
            segment@ == bytes@.subrange(6, k as int),
        decreases bytes@.len() - k,
    {
        segment.push(bytes[k]);
        k += 1;
        assert(segment@ =~= bytes@.subrange(6, k as int));
    }
    match decode_base64(&segment) {
        None => Err(BasicAuthError::NotBase64),
        Some(decoded) => credentials_from_decoded(decoded),
    }
}

/// How far a publish request over the API has come.
#[derive(Debug)]
pub enum Progress {
    /// The request has arrived.
    Arrived(BodyData),
    /// The caller's credentials are being checked.
    Authenticating(BodyData),
    /// The confirmed subscribers are being fetched.
    Fetching(BodyData),
    /// The issue is on its way to `current`; `waiting` come after, last
    /// first.
    Sending { body: BodyData, current: SubscriberEmail, waiting: Vec<SubscriberEmail> },
    /// The caller has been answered.
    Done,
}

/// What has just happened.
#[derive(Debug)]
pub enum Event {
    /// The `Authorization` header was read: these are its bytes, if it is
    /// there.
    Header(Option<Vec<u8>>),
    /// The credentials were checked.
    Checked(Result<UserId, AuthError>),
    /// The stored addresses of the confirmed subscribers were fetched.
    Subscribers(Result<Vec<String>, ErrorChain>),
    /// The email was handed to the mail service.
    Sent(Result<(), ErrorChain>),
}

/// What the caller is to do next.
#[derive(Debug)]
pub enum Action {
    /// Check these credentials.
    CheckCredentials(Credentials),
    /// Fetch the stored addresses of the confirmed subscribers.
    FetchSubscribers,
    /// Send this email.
    Send(Email),
    /// Answer `200 OK`: the issue has gone out.
    Succeed,
    /// Answer with this error.
    Fail(PublishError),
}

/// The valid addresses among `stored`, in reverse order.
pub open spec fn valid_reversed(stored: Seq<Seq<char>>) -> Seq<Seq<char>>
    decreases stored.len(),
{
    if stored.len() == 0 {
        Seq::empty()
    } else if is_valid_email(stored.first()) {
        valid_reversed(stored.drop_first()).push(stored.first())
    } else {
        valid_reversed(stored.drop_first())
    }
}

/// The addresses of a list of subscribers, in order.
pub open spec fn addresses(subscribers: Seq<SubscriberEmail>) -> Seq<Seq<char>> {
    Seq::new(subscribers.len(), |i: int| subscribers[i]@)
}

/// The email that carries `body` to `recipient`.
pub open spec fn newsletter_email(body: BodyData, recipient: Seq<char>) -> EmailView {
    EmailView {
        recipient,
        subject: body.title@,
        html_content: body.content.html@,
        text_content: body.content.text@,
    }
}

/// Whether `next` ends the request with a failure whose view is `error`.
pub open spec fn fails_with(next: (Progress, Action), error: PublishErrorView) -> bool {
    &&& next.0 is Done
    &&& next.1 matches Action::Fail(failure) && failure@ == error
}

/// Whether `next` ends the request with success.
pub open spec fn succeeds(next: (Progress, Action)) -> bool {
    next.0 is Done && next.1 is Succeed
}

/// Whether `next` sends `body` to the last of `recipients` and keeps the
/// others waiting.
pub open spec fn sends_to_last(next: (Progress, Action), body: BodyData, recipients: Seq<Seq<char>>)
    -> bool {
    &&& recipients.len() > 0
    &&& next.0 matches Progress::Sending { body: kept, current, waiting } && (kept == body
        && current@ == recipients.last() && addresses(waiting@) == recipients.drop_last())
    &&& next.1 matches Action::Send(email) && email@ == newsletter_email(body, recipients.last())
}

/// Whether `next` goes on to the recipients given: the next one is sent the
/// issue, or, if none is left, the request succeeds.
pub open spec fn goes_on(next: (Progress, Action), body: BodyData, recipients: Seq<Seq<char>>)
    -> bool {
    if recipients.len() == 0 {
        succeeds(next)
    } else {
        sends_to_last(next, body, recipients)
    }
}

/// The view of a header that may be absent.
pub open spec fn owned_header_view(header: Option<Vec<u8>>) -> Option<Seq<u8>> {
    match header {
        Some(bytes) => Some(bytes@),
        None => None,
    }
}

/// Sends the issue to the next recipient waiting, or ends with success if
/// none is.
fn send_next(body: BodyData, waiting: Vec<SubscriberEmail>) -> (next: (Progress, Action))
    ensures
        goes_on(next, body, addresses(waiting@)),
{
    let mut waiting = waiting;
    let ghost before = addresses(waiting@);
    match waiting.pop() {
        None => (Progress::Done, Action::Succeed),
        Some(current) => {
            let email = crate::delivery::email_for(
                current.as_str(),
                body.title.as_str(),
                body.content.html.as_str(),
                body.content.text.as_str(),
            );
            assert(addresses(waiting@) =~= before.drop_last());
            (Progress::Sending { body, current, waiting }, Action::Send(email))
        },
    }
}

/// Takes a publish request over the API one step on: given how far it has
/// come and what has just happened, says what to do next.
///
/// The caller must carry Basic credentials, and they must check out. Then
/// the issue is sent to every confirmed subscriber whose stored address is
/// valid, one after the other in the order stored; addresses that are not
/// valid are passed over. The first email that cannot be sent stops the
/// request with an error that names the recipient. An event that does not
/// belong to the step in progress stops it as well.
pub fn publish_newsletter(progress: Progress, event: Event) -> (next: (Progress, Action))
    ensures
        match (progress, event) {
            (Progress::Arrived(body), Event::Header(header)) => match basic_credentials(
                owned_header_view(header),
            ) {
                Ok(credentials) => next.0 == Progress::Authenticating(body)
                    && (next.1 matches Action::CheckCredentials(offered) && offered@
                    == credentials),
                Err(error) => fails_with(
                    next,
                    PublishErrorView::AuthError(
                        ErrorChainView { message: error.message_text(), causes: Seq::empty() },
                    ),
                ),
            },
            (Progress::Authenticating(body), Event::Checked(Ok(_))) => next.0
                == Progress::Fetching(body) && next.1 is FetchSubscribers,
            (Progress::Authenticating(_), Event::Checked(Err(error))) => fails_with(
                next,
                match error@ {
                    AuthErrorView::InvalidCredentials(_) => PublishErrorView::AuthError(
                        error@.chain(),
                    ),
                    AuthErrorView::UnexpectedError(_) => PublishErrorView::UnexpectedError(
                        error@.chain(),
                    ),
                },
            ),
            (Progress::Fetching(body), Event::Subscribers(Ok(stored))) => goes_on(
                next,
                body,
                valid_reversed(messages(stored@)),
            ),
            (Progress::Fetching(_), Event::Subscribers(Err(error))) => fails_with(
                next,
                PublishErrorView::UnexpectedError(error@),
            ),
            (Progress::Sending { body, current, waiting }, Event::Sent(Ok(_))) => goes_on(
                next,
                body,
                addresses(waiting@),
            ),
            (Progress::Sending { body, current, waiting }, Event::Sent(Err(cause))) => fails_with(
                next,
                PublishErrorView::UnexpectedError(
                    ErrorChainView {
                        message: "Failed to send newsletter issue to "@ + current@,
                        causes: cause@.all(),
                    },
                ),
            ),
            _ => fails_with(
                next,
                PublishErrorView::UnexpectedError(
                    ErrorChainView {
                        message: "The request took an unexpected turn."@,
                        causes: Seq::empty(),
                    },
                ),
            ),
        },
{
    match (progress, event) {
        (Progress::Arrived(body), Event::Header(header)) => {
            let found = match &header {
                Some(bytes) => Some(bytes),
                None => None,
            };
            match basic_authentication(found) {
                Ok(credentials) => (
                    Progress::Authenticating(body),
                    Action::CheckCredentials(credentials),
                ),
                Err(error) => (Progress::Done, Action::Fail(error.into_publish_error())),
            }
        },
        (Progress::Authenticating(body), Event::Checked(Ok(_))) => (
            Progress::Fetching(body),
            Action::FetchSubscribers,
        ),
        (Progress::Authenticating(_), Event::Checked(Err(error))) => (
            Progress::Done,
            Action::Fail(PublishError::from_auth(error)),
        ),
        (Progress::Fetching(body), Event::Subscribers(Ok(stored))) => {
            let mut waiting: Vec<SubscriberEmail> = Vec::new();
            let mut i: usize = stored.len();
            proof {
                assert(messages(stored@).subrange(i as int, stored@.len() as int) =~= Seq::empty());
                assert(addresses(waiting@) =~= Seq::empty());
            }
            while i > 0
                invariant
                    i <= stored@.len(),
                    addresses(waiting@) == valid_reversed(
                        messages(stored@).subrange(i as int, stored@.len() as int),
                    ),
                decreases i,
            {
                i -= 1;
                let ghost before = addresses(waiting@);
                proof {
                    let from = messages(stored@).subrange(i as int, stored@.len() as int);
                    assert(from.drop_first() =~= messages(stored@).subrange(
                        i + 1,
                        stored@.len() as int,
                    ));
                    assert(from.first() == stored@[i as int]@);
                }
                match SubscriberEmail::parse(stored[i].clone()) {
                    Ok(email) => {
                        waiting.push(email);
                        assert(addresses(waiting@) =~= before.push(stored@[i as int]@));
                    },
                    Err(_) => {},
                }
            }
            proof {
                assert(messages(stored@).subrange(0, stored@.len() as int) =~= messages(stored@));
            }
            send_next(body, waiting)
        },
        (Progress::Fetching(_), Event::Subscribers(Err(error))) => (
            Progress::Done,
            Action::Fail(PublishError::UnexpectedError(error)),
        ),
        (Progress::Sending { body, current, waiting }, Event::Sent(Ok(_))) => send_next(
            body,
            waiting,
        ),
        (Progress::Sending { body, current, waiting }, Event::Sent(Err(cause))) => (
            Progress::Done,
            Action::Fail(PublishError::from_failed_delivery(&current, cause)),
        ),
        _ => (
            Progress::Done,
            Action::Fail(
                PublishError::UnexpectedError(
                    ErrorChain::new("The request took an unexpected turn."),
                ),
            ),
        ),
    }
}

} // verus!
