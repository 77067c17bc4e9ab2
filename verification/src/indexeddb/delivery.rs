//! Delivering the engine's answer to a request: the answer becomes the request's result, the
//! request fires its event, and the transaction goes on.

use vstd::prelude::*;

use crate::error::{Error, ErrorView};
use crate::indexeddb::engine::model::BackendError;
use crate::indexeddb::request::{
    actions_view, after_error, after_success, calls_for, push_action, ActionView, Conversion,
    IDBRequest, IDBRequestReadyState, IdbResult, JsAnswer, RequestEvent, RequestListener,
    TransactionAction,
};

verus! {

/// What a delivery waits for.
#[derive(Debug)]
pub enum DeliveryStage {
    /// The answer is being converted.
    Converting,
    /// The write that fills an index is being sent.
    Backfilling,
    /// The listeners of a success event are running.
    Succeeding,
    /// The listeners of an error event are running.
    Failing(Error),
}

/// A delivery under way.
#[derive(Debug)]
pub struct Delivery {
    pub request_id: u64,
    pub stage: DeliveryStage,
}

/// What is done next, once the actions are done.
#[derive(Debug)]
pub enum DeliveryNext {
    Convert(Conversion),
    Fire(RequestEvent),
    Finished,
}

/// Actions on the transaction, in order, and what is done after them.
#[derive(Debug)]
pub struct DeliveryStep {
    pub actions: Vec<TransactionAction>,
    pub next: DeliveryNext,
}

/// What the transaction and the realm say where a request fails.
#[derive(Clone, Copy, Debug, PartialEq, Eq, Structural)]
pub struct FailureContext {
    /// The transaction is committing.
    pub committing: bool,
    /// An exception object could be made for the error.
    pub created: bool,
}

/// How a conversion ended.
#[derive(Debug)]
pub enum ConversionOutcome {
    /// The result of the request. That of a backfill is undefined.
    Converted(JsAnswer),
    Failed(Error),
}

/// How moving a cursor ends. Without a record the cursor has run out, and the result is null; with
/// one it is the cursor itself, once the record's key and value are made.
pub open spec fn cursor_outcome(
    result: Result<Option<usize>, Error>,
    finished: Result<(), Error>,
    cursor: u64,
) -> ConversionOutcome {
    match (result, finished) {
        (Err(error), _) => ConversionOutcome::Failed(error),
        (Ok(None), _) => ConversionOutcome::Converted(JsAnswer::Null),
        (Ok(Some(_)), Err(error)) => ConversionOutcome::Failed(error),
        (Ok(Some(_)), Ok(_)) => ConversionOutcome::Converted(JsAnswer::Value(cursor)),
    }
}

/// How the conversion of an answer to a cursor's request ends. `result` is what moving the cursor
/// gave, and `finished` how making the key and the value of its new record ended.
pub fn cursor_answer(
    result: Result<Option<usize>, Error>,
    finished: Result<(), Error>,
    cursor: u64,
) -> (outcome: ConversionOutcome)
    ensures
        outcome == cursor_outcome(result, finished, cursor),
{
    match (result, finished) {
        (Err(error), _) => ConversionOutcome::Failed(error),
        (Ok(None), _) => ConversionOutcome::Converted(JsAnswer::Null),
        (Ok(Some(_)), Err(error)) => ConversionOutcome::Failed(error),
        (Ok(Some(_)), Ok(_)) => ConversionOutcome::Converted(JsAnswer::Value(cursor)),
    }
}

/// How any other conversion ends. A count is a number, and an answer without data leaves the result
/// undefined; what is left makes a JavaScript value, or sends a write, and fails where that failed.
pub open spec fn plain_outcome(
    conversion: Conversion,
    made: Result<u64, Error>,
) -> ConversionOutcome {
    match (conversion, made) {
        (Conversion::Fail(error), _) => ConversionOutcome::Failed(error),
        (Conversion::AbandonBackfill(error), _) => ConversionOutcome::Failed(error),
        (Conversion::Nothing, _) => ConversionOutcome::Converted(JsAnswer::Undefined),
        (Conversion::Count(count), _) => ConversionOutcome::Converted(JsAnswer::Number(count)),
        (_, Err(error)) => ConversionOutcome::Failed(error),
        (Conversion::Backfill { .. }, Ok(_)) => ConversionOutcome::Converted(JsAnswer::Undefined),
        (_, Ok(value)) => ConversionOutcome::Converted(JsAnswer::Value(value)),
    }
}

/// How a conversion other than a cursor's ends. `made` is the handle of the value that was made,
/// where one has to be, or why it could not be made: of an array, why its first element that failed
/// did.
pub fn plain_answer(conversion: Conversion, made: Result<u64, Error>) -> (outcome:
    ConversionOutcome)
    requires
        !(conversion is Cursor),
    ensures
        outcome == plain_outcome(conversion, made),
{
    match (conversion, made) {
        (Conversion::Fail(error), _) => ConversionOutcome::Failed(error),
        (Conversion::AbandonBackfill(error), _) => ConversionOutcome::Failed(error),
        (Conversion::Nothing, _) => ConversionOutcome::Converted(JsAnswer::Undefined),
        (Conversion::Count(count), _) => ConversionOutcome::Converted(JsAnswer::Number(count)),
        (_, Err(error)) => ConversionOutcome::Failed(error),
        (Conversion::Backfill { .. }, Ok(_)) => ConversionOutcome::Converted(JsAnswer::Undefined),
        (_, Ok(value)) => ConversionOutcome::Converted(JsAnswer::Value(value)),
    }
}

/// How listeners left the event.
#[derive(Clone, Copy, Debug, PartialEq, Eq, Structural)]
pub struct Dispatched {
    /// The transaction is active.
    pub active: bool,
    pub listeners_threw: bool,
    pub default_not_prevented: bool,
}

/// The request once it has its result.
pub open spec fn succeeded(before: IDBRequest, answer: JsAnswer) -> IDBRequest {
    IDBRequest { result: answer, error: None, ..before }
}

/// The request once it has failed.
pub open spec fn errored(
    after: IDBRequest,
    before: IDBRequest,
    error: Error,
    context: FailureContext,
) -> bool {
    &&& after.result == JsAnswer::Undefined
    &&& after.error == if context.created {
        Some(error)
    } else {
        before.error
    }
    &&& after.source == before.source
    &&& after.transaction == before.transaction
    &&& after.ready_state == before.ready_state
}

/// What is done before an error event is fired: a transaction that is committing is aborted.
pub open spec fn before_error_event(error: ErrorView, context: FailureContext) -> Seq<ActionView> {
    if context.committing {
        seq![ActionView::Abort(error), ActionView::RequestBackendAbort, ActionView::Activate]
    } else {
        seq![ActionView::Activate]
    }
}

/// The request fires its success event, after the actions.
pub open spec fn fires_success(step: DeliveryStep, actions: Seq<ActionView>) -> bool {
    &&& actions_view(step.actions@) == actions
    &&& step.next == DeliveryNext::Fire(
        RequestEvent { is_error: false, bubbles: false, cancelable: false },
    )
}

/// The request fires its error event, after the actions.
pub open spec fn fires_error(step: DeliveryStep, actions: Seq<ActionView>) -> bool {
    &&& actions_view(step.actions@) == actions
    &&& step.next == DeliveryNext::Fire(
        RequestEvent { is_error: true, bubbles: true, cancelable: true },
    )
}

/// The request once its answer has come.
pub open spec fn done(before: IDBRequest) -> IDBRequest {
    IDBRequest { ready_state: IDBRequestReadyState::Done, ..before }
}

/// How a delivery begins, by the conversion that the answer calls for.
pub open spec fn begins(
    conversion: Conversion,
    before: IDBRequest,
    after: IDBRequest,
    context: FailureContext,
    stage: DeliveryStage,
    step: DeliveryStep,
) -> bool {
    match conversion {
        Conversion::Fail(error) => {
            &&& stage == DeliveryStage::Failing(error)
            &&& errored(after, done(before), error, context)
            &&& fires_error(step, before_error_event(error@, context))
        },
        Conversion::AbandonBackfill(error) => {
            &&& stage == DeliveryStage::Failing(error)
            &&& errored(after, done(before), error, context)
            &&& fires_error(
                step,
                seq![ActionView::Activate, ActionView::DiscardHeldOutbound] + before_error_event(
                    error@,
                    context,
                ),
            )
        },
        Conversion::Backfill { .. } => {
            &&& stage is Backfilling
            &&& after == done(before)
            &&& actions_view(step.actions@) == seq![ActionView::Activate]
            &&& step.next == DeliveryNext::Convert(conversion)
        },
        _ => {
            &&& stage is Converting
            &&& after == done(before)
            &&& actions_view(step.actions@) == Seq::<ActionView>::empty()
            &&& step.next == DeliveryNext::Convert(conversion)
        },
    }
}

/// How a delivery goes on once the conversion has ended.
pub open spec fn converts(
    stage: DeliveryStage,
    outcome: ConversionOutcome,
    before: IDBRequest,
    after: IDBRequest,
    context: FailureContext,
    next: DeliveryStage,
    step: DeliveryStep,
) -> bool {
    match outcome {
        ConversionOutcome::Converted(answer) => {
            &&& next is Succeeding
            &&& if stage is Backfilling {
                &&& after == succeeded(before, JsAnswer::Undefined)
                &&& fires_success(
                    step,
                    seq![ActionView::ResumeAfterBackfill, ActionView::Activate],
                )
            } else {
                &&& after == succeeded(before, answer)
                &&& fires_success(step, seq![ActionView::Activate])
            }
        },
        ConversionOutcome::Failed(error) => {
            &&& next == DeliveryStage::Failing(error)
            &&& errored(after, before, error, context)
            &&& fires_error(
                step,
                if stage is Backfilling {
                    seq![ActionView::DiscardHeldOutbound] + before_error_event(error@, context)
                } else {
                    before_error_event(error@, context)
                },
            )
        },
    }
}

/// Fires the error event of a request, after `actions`.
fn fail(
    mut actions: Vec<TransactionAction>,
    request: &mut IDBRequest,
    error: &Error,
    context: FailureContext,
) -> (step: DeliveryStep)
    ensures
        errored(*final(request), *old(request), *error, context),
        fires_error(step, actions_view(actions@) + before_error_event(error@, context)),
{
    let ghost before = actions_view(actions@);
    let (event, aborts) = RequestListener::handle_async_request_error(
        request,
        error,
        context.created,
        context.committing,
    );
    if aborts {
        push_action(&mut actions, TransactionAction::Abort(error.clone()));
        push_action(&mut actions, TransactionAction::RequestBackendAbort);
    }
    push_action(&mut actions, TransactionAction::Activate);
    assert(actions_view(actions@) =~= before + before_error_event(error@, context));
    DeliveryStep { actions, next: DeliveryNext::Fire(event) }
}

fn no_actions() -> (actions: Vec<TransactionAction>)
    ensures
        actions_view(actions@) == Seq::<ActionView>::empty(),
{
    let actions: Vec<TransactionAction> = Vec::new();
    assert(actions_view(actions@) =~= Seq::<ActionView>::empty());
    actions
}

impl Delivery {
    /// Takes the engine's answer in.
    pub fn begin(
        listener: RequestListener,
        request: &mut IDBRequest,
        result: Result<IdbResult, BackendError>,
        context: FailureContext,
    ) -> (started: (Delivery, DeliveryStep))
        ensures
            started.0.request_id == listener.request_id,
            exists|conversion: Conversion| #[trigger]
                calls_for(
                    result,
                    listener.records_param,
                    listener.record_key,
                    old(request).source,
                    conversion,
                ) && begins(
                    conversion,
                    *old(request),
                    *final(request),
                    context,
                    started.0.stage,
                    started.1,
                ),
    {
        let request_id = listener.request_id;
        let ghost param = listener.records_param;
        let ghost key = listener.record_key;
        let conversion = listener.handle_async_request_finished(request, result);
        let ghost called_for = conversion;
        assert(calls_for(result, param, key, old(request).source, called_for));
        let mut actions = no_actions();
        let ghost empty = Seq::<ActionView>::empty();
        let (stage, step) = match conversion {
            Conversion::Fail(error) => {
                let step = fail(actions, request, &error, context);
                assert(empty + before_error_event(error@, context) =~= before_error_event(
                    error@,
                    context,
                ));
                (DeliveryStage::Failing(error), step)
            },
            Conversion::AbandonBackfill(error) => {
                push_action(&mut actions, TransactionAction::Activate);
                push_action(&mut actions, TransactionAction::DiscardHeldOutbound);
                assert(actions_view(actions@) =~= seq![
                    ActionView::Activate,
                    ActionView::DiscardHeldOutbound,
                ]);
                let step = fail(actions, request, &error, context);
                (DeliveryStage::Failing(error), step)
            },
            Conversion::Backfill {
                store,
                store_name,
                index_name,
                key_path,
                multi_entry,
                records,
            } => {
                push_action(&mut actions, TransactionAction::Activate);
                assert(actions_view(actions@) =~= seq![ActionView::Activate]);
                let conversion = Conversion::Backfill {
                    store,
                    store_name,
                    index_name,
                    key_path,
                    multi_entry,
                    records,
                };
                let step = DeliveryStep { actions, next: DeliveryNext::Convert(conversion) };
                (DeliveryStage::Backfilling, step)
            },
            conversion => (
                DeliveryStage::Converting,
                DeliveryStep { actions, next: DeliveryNext::Convert(conversion) },
            ),
        };
        assert(begins(called_for, *old(request), *request, context, stage, step));
        (Delivery { request_id, stage }, step)
    }

    /// Goes on once the conversion has ended.
    pub fn converted(
        self,
        request: &mut IDBRequest,
        outcome: ConversionOutcome,
        context: FailureContext,
    ) -> (result: (Delivery, DeliveryStep))
        requires
            self.stage is Converting || self.stage is Backfilling,
        ensures
            result.0.request_id == self.request_id,
            converts(
                self.stage,
                outcome,
                *old(request),
                *final(request),
                context,
                result.0.stage,
                result.1,
            ),
    {
        let backfilling = match self.stage {
            DeliveryStage::Backfilling => true,
            _ => false,
        };
        let request_id = self.request_id;
        let mut actions = no_actions();
        let ghost empty = Seq::<ActionView>::empty();
        match outcome {
            ConversionOutcome::Converted(answer) => {
                if backfilling {
                    push_action(&mut actions, TransactionAction::ResumeAfterBackfill);
                }
                push_action(&mut actions, TransactionAction::Activate);
                assert(actions_view(actions@) =~= if backfilling {
                    seq![ActionView::ResumeAfterBackfill, ActionView::Activate]
                } else {
                    seq![ActionView::Activate]
                });
                let answer = if backfilling {
                    JsAnswer::Undefined
                } else {
                    answer
                };
                let event = RequestListener::succeed(request, answer);
                (
                    Delivery { request_id, stage: DeliveryStage::Succeeding },
                    DeliveryStep { actions, next: DeliveryNext::Fire(event) },
                )
            },
            ConversionOutcome::Failed(error) => {
                if backfilling {
                    push_action(&mut actions, TransactionAction::DiscardHeldOutbound);
                }
                assert(actions_view(actions@) =~= if backfilling {
                    seq![ActionView::DiscardHeldOutbound]
                } else {
                    empty
                });
                let step = fail(actions, request, &error, context);
                assert(empty + before_error_event(error@, context) =~= before_error_event(
                    error@,
                    context,
                ));
                (Delivery { request_id, stage: DeliveryStage::Failing(error) }, step)
            },
        }
    }

    /// Ends the delivery once listeners have run.
    pub fn dispatched(self, dispatched: Dispatched) -> (step: DeliveryStep)
        requires
            self.stage is Succeeding || self.stage is Failing,
        ensures
            step.next is Finished,
            actions_view(step.actions@) == match self.stage {
                DeliveryStage::Failing(error) => after_error(
                    dispatched.active,
                    dispatched.listeners_threw,
                    dispatched.default_not_prevented,
                    error@,
                    self.request_id,
                ),
                _ => after_success(
                    dispatched.active,
                    dispatched.listeners_threw,
                    self.request_id,
                ),
            },
    {
        let actions = match &self.stage {
            DeliveryStage::Failing(error) => RequestListener::after_error(
                dispatched.active,
                dispatched.listeners_threw,
                dispatched.default_not_prevented,
                error,
                self.request_id,
            ),
            _ => RequestListener::after_success(
                dispatched.active,
                dispatched.listeners_threw,
                self.request_id,
            ),
        };
        DeliveryStep { actions, next: DeliveryNext::Finished }
    }
}

/// A request whose answer is being delivered is done, and keeps its source and its transaction.
pub proof fn answered_requests_are_done(
    conversion: Conversion,
    before: IDBRequest,
    after: IDBRequest,
    context: FailureContext,
    stage: DeliveryStage,
    step: DeliveryStep,
)
    requires
        begins(conversion, before, after, context, stage, step),
    ensures
        after.ready_state == IDBRequestReadyState::Done,
        after.source == before.source,
        after.transaction == before.transaction,
        step.next is Fire <==> stage is Failing,
{
}

/// A cursor that has run out is a success: the request's result is null, not undefined, and its
/// success event fires.
pub proof fn exhausted_cursor_succeeds_with_null(
    finished: Result<(), Error>,
    cursor: u64,
    before: IDBRequest,
    after: IDBRequest,
    context: FailureContext,
    next: DeliveryStage,
    step: DeliveryStep,
)
    requires
        converts(
            DeliveryStage::Converting,
            cursor_outcome(Ok(None), finished, cursor),
            before,
            after,
            context,
            next,
            step,
        ),
    ensures
        after == (IDBRequest { result: JsAnswer::Null, error: None, ..before }),
        next is Succeeding,
        step.next == DeliveryNext::Fire(
            RequestEvent { is_error: false, bubbles: false, cancelable: false },
        ),
{
}

} // verus!
