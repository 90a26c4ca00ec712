//! The publish command: claims its idempotency key, records the issue and
//! its fan-out inside the claim's transaction, and saves the response it
//! answers with. Retries and racing duplicates get that same response.

use crate::authentication::middleware::UserId;
use crate::error::{
    error_chain_text, plain_text_response, ErrorChain, ErrorChainView, ResponseError,
};
use crate::flash::{FlashMessage, FlashView, Level, Reply, ReplyView};
use crate::foreign::unix_time_now;
use crate::idempotency::key::{parsed_key, IdempotencyKey, KeyError};
use crate::idempotency::persistence::NextAction;
use crate::response::{
    bare_response, redirect_response, HttpResponse, ResponseView, StatusCode,
};
use crate::routes::newsletters::challenge_response;
use crate::store::memory::{claim_of, Store, Transaction};
use crate::store::model::{ClaimKey, ClaimView, StoreError, StoreView};
use vstd::prelude::*;
use vstd::string::*;
use vstd::utf8::encode_utf8;

verus! {

/// What the publish form submits.
#[derive(Debug)]
pub struct NewsletterFormData {
    pub title: String,
    pub text: String,
    pub html: String,
    pub idempotency_key: String,
}

/// A publish command as a mathematical value: who issued it under which
/// key, and the issue it carries.
pub struct CommandView {
    pub claim: ClaimKey,
    pub title: Seq<char>,
    pub text: Seq<char>,
    pub html: Seq<char>,
}

/// How far a publish request has come.
pub enum PhaseView {
    /// Nothing done yet, or sent back to the start after losing its claim.
    Start,
    /// Holds the claim in the named transaction.
    Claimed(u64),
    /// Has written the issue and its fan-out inside the named transaction,
    /// and is about to commit with this response.
    Enqueued(u64, ResponseView),
    /// Answered, with this response.
    Finished(ResponseView),
    /// Stopped on a storage error; whatever it had written is rolled back.
    Failed(StoreError),
}

/// Why the store could not do what a publish request asked of it.
#[derive(Debug)]
pub enum Failure<E> {
    /// The transaction is no longer open: the request has lost its claim.
    ClaimLost,
    /// Anything else.
    Other(E),
}

/// What a publish request is to do next. `T` is the handle of the open
/// transaction, `E` the error the store reports.
#[derive(Debug)]
pub enum Step<T, E> {
    /// Ask for the claim.
    Claim,
    /// Write the issue and its fan-out inside this transaction.
    Enqueue(T),
    /// Commit this transaction with this response.
    Complete(T, HttpResponse),
    /// Roll this transaction back, then stop with this error.
    Abort(T, E),
    /// Answer with this response; the request is done.
    Answer(HttpResponse),
    /// Another request holds the claim: wait, then ask for it again.
    Wait,
    /// Stop with this error.
    Fail(E),
}

/// Decides what follows a request for the claim. A fresh claim goes on to
/// write the issue, a saved response is the answer, a claim in progress is
/// waited for, and a storage error stops the request.
pub fn after_claim<T, E>(outcome: Result<NextAction<T>, Failure<E>>) -> (next: Step<T, E>)
    ensures
        next == (match outcome {
            Ok(NextAction::StartProcessing(transaction)) => Step::<T, E>::Enqueue(transaction),
            Ok(NextAction::ReturnSavedResponse(response)) => Step::Answer(response),
            Ok(NextAction::InProgress) => Step::Wait,
            Err(Failure::ClaimLost) => Step::Claim,
            Err(Failure::Other(error)) => Step::Fail(error),
        }),
{
    match outcome {
        Ok(NextAction::StartProcessing(transaction)) => Step::Enqueue(transaction),
        Ok(NextAction::ReturnSavedResponse(response)) => Step::Answer(response),
        Ok(NextAction::InProgress) => Step::Wait,
        Err(Failure::ClaimLost) => Step::Claim,
        Err(Failure::Other(error)) => Step::Fail(error),
    }
}

/// Decides what follows the writing of the issue inside `transaction`. If
/// it was written the request goes on to commit with `accepted`, the
/// response it answers with. A request that has lost its claim starts over.
/// Any other failure rolls the transaction back and stops the request.
pub fn after_enqueue<T, E>(
    transaction: T,
    outcome: Result<(), Failure<E>>,
    accepted: HttpResponse,
) -> (next: Step<T, E>)
    ensures
        next == (match outcome {
            Ok(_) => Step::<T, E>::Complete(transaction, accepted),
            Err(Failure::ClaimLost) => Step::Claim,
            Err(Failure::Other(error)) => Step::Abort(transaction, error),
        }),
{
    match outcome {
        Ok(_) => Step::Complete(transaction, accepted),
        Err(Failure::ClaimLost) => Step::Claim,
        Err(Failure::Other(error)) => Step::Abort(transaction, error),
    }
}

/// Decides what follows the commit with `accepted`. Once committed,
/// `accepted` is the answer, now and on every retry. A request that has
/// lost its claim starts over. Any other failure stops the request.
pub fn after_complete<T, E>(outcome: Result<(), Failure<E>>, accepted: HttpResponse) -> (next:
    Step<T, E>)
    ensures
        next == (match outcome {
            Ok(_) => Step::<T, E>::Answer(accepted),
            Err(Failure::ClaimLost) => Step::Claim,
            Err(Failure::Other(error)) => Step::Fail(error),
        }),
{
    match outcome {
        Ok(_) => Step::Answer(accepted),
        Err(Failure::ClaimLost) => Step::Claim,
        Err(Failure::Other(error)) => Step::Fail(error),
    }
}

/// How a refusal of the in-memory store is read: a transaction that is not
/// open means the claim is lost; anything else is an error.
pub fn failure_of(error: StoreError) -> (failure: Failure<StoreError>)
    ensures
        failure == (match error {
            StoreError::NoSuchTransaction => Failure::<StoreError>::ClaimLost,
            _ => Failure::Other(error),
        }),
{
    match error {
        StoreError::NoSuchTransaction => Failure::ClaimLost,
        _ => Failure::Other(error),
    }
}

/// One step of a publish request: one operation on the store.
///
/// From the start the request asks for the claim: a saved response ends it,
/// a claim in progress leaves it where it was, a fresh claim moves it on.
/// With the claim it writes the issue, then commits with its own response
/// `accepted`. A request whose transaction is no longer open has lost its
/// claim and starts over. A finished or failed request does nothing.
pub open spec fn publish_step(
    store: StoreView,
    command: CommandView,
    phase: PhaseView,
    accepted: ResponseView,
    now: u64,
) -> (StoreView, PhaseView) {
    match phase {
        PhaseView::Start => {
            let (after, outcome) = store.begin(command.claim, now);
            match outcome {
                Ok(ClaimView::StartProcessing(transaction)) => (
                    after,
                    PhaseView::Claimed(transaction),
                ),
                Ok(ClaimView::ReturnSavedResponse(response)) => (
                    after,
                    PhaseView::Finished(response),
                ),
                Ok(ClaimView::InProgress) => (after, PhaseView::Start),
                Err(error) => (after, PhaseView::Failed(error)),
            }
        },
        PhaseView::Claimed(transaction) => {
            let (after, outcome) = store.enqueue(
                transaction,
                command.title,
                command.text,
                command.html,
                now,
            );
            match outcome {
                Ok(_) => (after, PhaseView::Enqueued(transaction, accepted)),
                Err(StoreError::NoSuchTransaction) => (after, PhaseView::Start),
                Err(error) => (after.abort(transaction), PhaseView::Failed(error)),
            }
        },
        PhaseView::Enqueued(transaction, response) => {
            let (after, outcome) = store.complete(transaction, response);
            match outcome {
                Ok(_) => (after, PhaseView::Finished(response)),
                Err(_) => (after, PhaseView::Start),
            }
        },
        PhaseView::Finished(_) => (store, phase),
        PhaseView::Failed(_) => (store, phase),
    }
}

/// How far a publish request has come, holding what it needs to go on.
#[derive(Debug)]
pub enum PublishPhase {
    /// Nothing done yet, or sent back to the start after losing its claim.
    Start,
    /// Holds the claim.
    Claimed(Transaction),
    /// Has written the issue and its fan-out, and is about to commit with
    /// this response.
    Enqueued(Transaction, HttpResponse),
    /// Answered, with this response.
    Finished(HttpResponse),
    /// Stopped on a storage error.
    Failed(StoreError),
}

impl View for PublishPhase {
    type V = PhaseView;

    open spec fn view(&self) -> PhaseView {
        match self {
            PublishPhase::Start => PhaseView::Start,
            PublishPhase::Claimed(transaction) => PhaseView::Claimed(transaction@),
            PublishPhase::Enqueued(transaction, response) => PhaseView::Enqueued(
                transaction@,
                response@,
            ),
            PublishPhase::Finished(response) => PhaseView::Finished(response@),
            PublishPhase::Failed(error) => PhaseView::Failed(*error),
        }
    }
}

/// One publish request on its way through the store.
#[derive(Debug)]
pub struct PublishTask {
    pub user_id: UserId,
    pub key: IdempotencyKey,
    pub title: String,
    pub text: String,
    pub html: String,
    /// The response this request answers with if it is the one to run the
    /// command.
    pub accepted: HttpResponse,
    pub phase: PublishPhase,
}

impl PublishTask {
    /// The command this request carries.
    pub open spec fn command(&self) -> CommandView {
        CommandView {
            claim: claim_of(self.user_id, self.key@),
            title: self.title@,
            text: self.text@,
            html: self.html@,
        }
    }

    /// A request at its start. Refused, before the store is touched, exactly
    /// when the form's idempotency key is empty or too long.
    pub fn new(user_id: UserId, form: NewsletterFormData, accepted: HttpResponse) -> (task: Result<
        PublishTask,
        KeyError,
    >)
        ensures
            match task {
                Ok(task) => parsed_key(form.idempotency_key@) == Ok::<Seq<char>, KeyError>(
                    task.key@,
                ) && task.user_id == user_id && task.title@ == form.title@ && task.text@
                    == form.text@ && task.html@ == form.html@ && task.accepted@ == accepted@
                    && task.phase@ == PhaseView::Start,
                Err(error) => parsed_key(form.idempotency_key@) == Err::<Seq<char>, KeyError>(
                    error,
                ),
            },
    {
        let NewsletterFormData { title, text, html, idempotency_key } = form;
        match IdempotencyKey::parse(idempotency_key) {
            Err(error) => Err(error),
            Ok(key) => Ok(
                PublishTask { user_id, key, title, text, html, accepted, phase: PublishPhase::Start },
            ),
        }
    }

    /// Takes one step: one operation on the store, as [`publish_step`] says.
    pub fn step(self, store: &mut Store, now: u64) -> (next: PublishTask)
        requires
            old(store).wf(),
        ensures
            final(store).wf(),
            next.command() == self.command(),
            next.accepted@ == self.accepted@,
            (final(store)@, next.phase@) == publish_step(
                old(store)@,
                self.command(),
                self.phase@,
                self.accepted@,
                now,
            ),
    {
        let PublishTask { user_id, key, title, text, html, accepted, phase } = self;
        let phase = match phase {
            PublishPhase::Start => {
                let outcome = match store.begin(user_id, &key, now) {
                    Ok(action) => Ok(action),
                    Err(error) => Err(failure_of(error)),
                };
                match after_claim(outcome) {
                    Step::Enqueue(transaction) => PublishPhase::Claimed(transaction),
                    Step::Answer(response) => PublishPhase::Finished(response),
                    Step::Fail(error) => PublishPhase::Failed(error),
                    _ => PublishPhase::Start,
                }
            },
            PublishPhase::Claimed(transaction) => {
                let outcome = match store.enqueue(
                    &transaction,
                    title.as_str(),
                    text.as_str(),
                    html.as_str(),
                    now,
                ) {
                    Ok(_) => Ok(()),
                    Err(error) => Err(failure_of(error)),
                };
                match after_enqueue(transaction, outcome, accepted.clone()) {
                    Step::Complete(transaction, response) => PublishPhase::Enqueued(
                        transaction,
                        response,
                    ),
                    Step::Abort(transaction, error) => {
                        store.abort(transaction);
                        PublishPhase::Failed(error)
                    },
                    _ => PublishPhase::Start,
                }
            },
            PublishPhase::Enqueued(transaction, response) => {
                let outcome = match store.complete(transaction, response.clone()) {
                    Ok(_) => Ok(()),
                    Err(error) => Err(failure_of(error)),
                };
                match after_complete::<Transaction, StoreError>(outcome, response) {
                    Step::Answer(response) => PublishPhase::Finished(response),
                    _ => PublishPhase::Start,
                }
            },
            PublishPhase::Finished(response) => PublishPhase::Finished(response),
            PublishPhase::Failed(error) => PublishPhase::Failed(error),
        };
        PublishTask { user_id, key, title, text, html, accepted, phase }
    }
}

/// Why publishing failed.
#[derive(Debug)]
pub enum PublishError {
    /// The caller did not prove who they are.
    AuthError(ErrorChain),
    /// Something else went wrong.
    UnexpectedError(ErrorChain),
}

/// The mathematical content of a [`PublishError`].
pub enum PublishErrorView {
    AuthError(ErrorChainView),
    UnexpectedError(ErrorChainView),
}

impl View for PublishError {
    type V = PublishErrorView;

    open spec fn view(&self) -> PublishErrorView {
        match self {
            PublishError::AuthError(cause) => PublishErrorView::AuthError(cause@),
            PublishError::UnexpectedError(cause) => PublishErrorView::UnexpectedError(cause@),
        }
    }
}

impl PublishErrorView {
    /// The error's own message: a fixed one for a failed authentication,
    /// the cause's for anything else.
    pub open spec fn message(self) -> Seq<char> {
        match self {
            PublishErrorView::AuthError(_) => "Authentication failed"@,
            PublishErrorView::UnexpectedError(cause) => cause.message,
        }
    }

    /// The messages of the causes behind the error, nearest first.
    pub open spec fn causes(self) -> Seq<Seq<char>> {
        match self {
            PublishErrorView::AuthError(cause) => cause.all(),
            PublishErrorView::UnexpectedError(cause) => cause.causes,
        }
    }

    /// What the caller is sent.
    pub open spec fn response(self) -> ResponseView {
        match self {
            PublishErrorView::AuthError(_) => challenge_response(),
            PublishErrorView::UnexpectedError(_) => bare_response(500),
        }
    }
}

impl PublishError {
    /// The error's own message.
    pub fn to_string(&self) -> (text: String)
        ensures
            text@ == self@.message(),
    {
        match self {
            PublishError::AuthError(_) => String::from_str("Authentication failed"),
            PublishError::UnexpectedError(cause) => cause.to_string(),
        }
    }

    /// The error written out with its causes, for the log.
    pub fn debug_text(&self) -> (text: String)
        ensures
            text@ == error_chain_text(self@.message(), self@.causes()),
    {
        match self {
            PublishError::AuthError(cause) => cause.clone().context(
                "Authentication failed",
            ).report(),
            PublishError::UnexpectedError(cause) => cause.report(),
        }
    }

    /// What the caller is sent: a challenge after a failed authentication,
    /// and a bare `500 Internal Server Error` after anything else. Nothing
    /// about any single delivery is ever told.
    pub fn into_response(self) -> (response: HttpResponse)
        ensures
            response@ == self@.response(),
    {
        match self {
            PublishError::UnexpectedError(_) => HttpResponse::bare(
                StatusCode::internal_server_error(),
            ),
            PublishError::AuthError(_) => {
                let mut response = HttpResponse::bare(StatusCode::unauthorized());
                response.append_header(
                    String::from_str("www-authenticate"),
                    "Basic realm=\"publish\"".as_bytes_vec(),
                );
                assert(response@.headers =~= challenge_response().headers);
                response
            },
        }
    }

    /// The error for a store that refused an operation.
    pub fn from_store(error: StoreError) -> (converted: PublishError)
        ensures
            converted@ == storage_failure(error),
    {
        PublishError::UnexpectedError(ErrorChain::new(error.message().as_str()))
    }
}

/// The error for a store that refused an operation.
pub open spec fn storage_failure(error: StoreError) -> PublishErrorView {
    PublishErrorView::UnexpectedError(
        ErrorChainView { message: error.message_text(), causes: Seq::empty() },
    )
}

/// The response a publish command answers with when it has run: a redirect
/// back to the form.
pub open spec fn accepted_response() -> ResponseView {
    redirect_response(encode_utf8("/admin/newsletters"@))
}

/// The response a publish command answers with when it has run.
pub fn accepted() -> (response: HttpResponse)
    ensures
        response@ == accepted_response(),
{
    HttpResponse::redirect("/admin/newsletters")
}

/// The answer to a publish command that has been carried out, now or on an
/// earlier submission: the saved response, and the news as a flash.
pub open spec fn published_reply(response: ResponseView) -> ReplyView {
    ReplyView {
        flash: Some(
            FlashView { level: Level::Info, message: "The newsletter has been published."@ },
        ),
        response,
    }
}

/// The answer to a form whose idempotency key is refused: `400 Bad
/// Request`, with the reason as plain text.
pub open spec fn rejected_reply(error: KeyError) -> ReplyView {
    ReplyView { flash: None, response: plain_text_response(400, error.message_text()) }
}

/// Answers a publish command that has been carried out, now or on an
/// earlier submission, with the response saved for it.
pub fn published(response: HttpResponse) -> (reply: Reply)
    ensures
        reply@ == published_reply(response@),
{
    Reply { flash: Some(FlashMessage::info("The newsletter has been published.")), response }
}

/// Answers a form whose idempotency key is refused.
pub fn rejected(error: KeyError) -> (reply: Reply)
    ensures
        reply@ == rejected_reply(error),
{
    let rejection = ResponseError::new(
        StatusCode::bad_request(),
        ErrorChain::new(error.message().as_str()),
    );
    Reply::plain(rejection.into_response())
}

/// A publish request carried as far as it goes without waiting: it asks for
/// the claim, and if it gets it, writes the issue and commits.
pub open spec fn publish_run(store: StoreView, command: CommandView, now: u64) -> (
    StoreView,
    PhaseView,
) {
    let (claimed, phase1) = publish_step(
        store,
        command,
        PhaseView::Start,
        accepted_response(),
        now,
    );
    if phase1 is Claimed {
        let (written, phase2) = publish_step(claimed, command, phase1, accepted_response(), now);
        publish_step(written, command, phase2, accepted_response(), now)
    } else {
        (claimed, phase1)
    }
}

/// The view of what publishing answers.
pub open spec fn outcome_view(outcome: Result<Option<Reply>, PublishError>) -> Result<
    Option<ReplyView>,
    PublishErrorView,
> {
    match outcome {
        Ok(Some(reply)) => Ok(Some(reply@)),
        Ok(None) => Ok(None),
        Err(error) => Err(error@),
    }
}

/// Whether publishing the form at time `now` takes the store from `before`
/// to `after` and answers `outcome`.
///
/// A form whose key is refused is answered with `400 Bad Request` before
/// the store is touched. Otherwise the request runs as far as it goes
/// without waiting. If it ends answered, by running the command or by
/// finding it completed, the answer is the saved response with the news as
/// a flash. If another request holds the claim, there is no answer yet:
/// the caller is to ask again. A storage error is reported as such.
pub open spec fn is_publish_outcome(
    before: StoreView,
    after: StoreView,
    outcome: Result<Option<ReplyView>, PublishErrorView>,
    user_id: UserId,
    title: Seq<char>,
    text: Seq<char>,
    html: Seq<char>,
    idempotency_key: Seq<char>,
    now: u64,
) -> bool {
    match parsed_key(idempotency_key) {
        Err(error) => after == before && outcome == Ok::<
            Option<ReplyView>,
            PublishErrorView,
        >(Some(rejected_reply(error))),
        Ok(key) => {
            let command = CommandView { claim: claim_of(user_id, key), title, text, html };
            let (reached, phase) = publish_run(before, command, now);
            &&& after == reached
            &&& outcome == (match phase {
                PhaseView::Finished(response) => Ok::<Option<ReplyView>, PublishErrorView>(
                    Some(published_reply(response)),
                ),
                PhaseView::Failed(error) => Err(storage_failure(error)),
                _ => Ok(None),
            })
        },
    }
}

/// Publishes the form's issue at time `now`, once per idempotency key.
pub fn publish_newsletter_at(
    store: &mut Store,
    user_id: UserId,
    form: NewsletterFormData,
    now: u64,
) -> (outcome: Result<Option<Reply>, PublishError>)
    requires
        old(store).wf(),
    ensures
        final(store).wf(),
        is_publish_outcome(
            old(store)@,
            final(store)@,
            outcome_view(outcome),
            user_id,
            form.title@,
            form.text@,
            form.html@,
            form.idempotency_key@,
            now,
        ),
{
    let task = match PublishTask::new(user_id, form, accepted()) {
        Err(error) => {
            return Ok(Some(rejected(error)));
        },
        Ok(task) => task,
    };
    let task = task.step(store, now);
    let claimed = match &task.phase {
        PublishPhase::Claimed(_) => true,
        _ => false,
    };
    let task = if claimed {
        task.step(store, now).step(store, now)
    } else {
        task
    };
    match task.phase {
        PublishPhase::Finished(response) => Ok(Some(published(response))),
        PublishPhase::Failed(error) => Err(PublishError::from_store(error)),
        _ => Ok(None),
    }
}

/// Publishes the form's issue, once per idempotency key, at the time the
/// clock shows.
pub fn publish_newsletter(store: &mut Store, user_id: UserId, form: NewsletterFormData) -> (outcome:
    Result<Option<Reply>, PublishError>)
    requires
        old(store).wf(),
    ensures
        final(store).wf(),
        exists|now: u64|
            is_publish_outcome(
                old(store)@,
                final(store)@,
                outcome_view(outcome),
                user_id,
                form.title@,
                form.text@,
                form.html@,
                form.idempotency_key@,
                now,
            ),
{
    let clock = unix_time_now();
    let now: u64 = if clock < 0 {
        0
    } else {
        clock as u64
    };
    publish_newsletter_at(store, user_id, form, now)
}

} // verus!
