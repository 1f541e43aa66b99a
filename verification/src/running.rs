//! The run of a driver call on the replies of the bus.
//!
//! A call's run is the run of its transaction in flight, followed by the run
//! of what the call proceeds with.
use crate::bus::{Action, Reply};
use crate::error::Error;
use crate::exchange::ProgressModel;
use crate::framing::{
    all_succeed, lemma_exchange_run_length, lemma_run_succeeds, lemma_select_once,
    lemma_step_shape,
};
use crate::operation::{OperationModel, Output, StepModel};
use crate::reg::FullScaleSelection;
use vstd::prelude::*;

verus! {

/// What the run of a call shows: the actions asked for, in order; the result
/// once the call is over; and the full-scale range that the handle holds
/// then.
pub ghost struct CallTrace<SpiError, PinError> {
    pub actions: Seq<Action>,
    pub result: Option<Result<Output, Error<SpiError, PinError>>>,
    pub scale: FullScaleSelection,
}

impl<SpiError, PinError> OperationModel<SpiError, PinError> {
    /// The run of the operation on `replies`, by a handle that holds the
    /// range `scale`: the first reply answers the pending action, the next
    /// one the action after it, and so on until the replies run out or the
    /// call is over.
    pub open spec fn run(
        self,
        scale: FullScaleSelection,
        replies: Seq<Reply<SpiError, PinError>>,
    ) -> CallTrace<SpiError, PinError>
        decreases replies.len(),
    {
        if replies.len() == 0 {
            CallTrace { actions: seq![self.pending()], result: None, scale }
        } else {
            match self.step(scale, replies[0]) {
                StepModel::Next(next) => {
                    let rest = next.run(scale, replies.skip(1));
                    CallTrace {
                        actions: seq![self.pending()] + rest.actions,
                        result: rest.result,
                        scale: rest.scale,
                    }
                },
                StepModel::Done(result) => CallTrace {
                    actions: seq![self.pending()],
                    result: Some(result),
                    scale: self.scale_after(scale, replies[0]),
                },
            }
        }
    }
}

/// The run of a call is the run of its transaction in flight, and then:
/// nothing more while that transaction is under way; the transaction's error
/// if it fails; and if it ends well, the result or the run of what the call
/// proceeds with, on the replies that are left.
pub proof fn lemma_run_composes<SpiError, PinError>(
    operation: OperationModel<SpiError, PinError>,
    scale: FullScaleSelection,
    replies: Seq<Reply<SpiError, PinError>>,
)
    requires
        operation.wf(),
    ensures
        ({
            let inner = operation.exchange.run(replies);
            let outer = operation.run(scale, replies);
            match inner.result {
                None => {
                    &&& outer.actions == inner.actions
                    &&& outer.result is None
                    &&& outer.scale == scale
                },
                Some(Err(e)) => {
                    &&& outer.actions == inner.actions
                    &&& outer.result == Some(Err::<Output, Error<SpiError, PinError>>(e))
                    &&& outer.scale == scale
                },
                Some(Ok(data)) => match operation.proceed(scale, data) {
                    StepModel::Done(result) => {
                        &&& outer.actions == inner.actions
                        &&& outer.result == Some(result)
                        &&& outer.scale == if result is Ok {
                            operation.finish.scale_after(scale)
                        } else {
                            scale
                        }
                    },
                    StepModel::Next(next) => {
                        let rest = next.run(scale, replies.skip(inner.actions.len() as int));
                        &&& inner.actions.len() <= replies.len()
                        &&& next.wf()
                        &&& outer.actions == inner.actions + rest.actions
                        &&& outer.result == rest.result
                        &&& outer.scale == rest.scale
                    },
                },
            }
        }),
    decreases replies.len(),
{
    let inner = operation.exchange.run(replies);
    let outer = operation.run(scale, replies);
    if replies.len() > 0 {
        let tail = replies.skip(1);
        lemma_step_shape(operation.exchange, replies[0]);
        match operation.exchange.step(replies[0]) {
            ProgressModel::Next(exchange) => {
                let onward = OperationModel { exchange, ..operation };
                assert(operation.step(scale, replies[0]) == StepModel::Next(onward));
                assert(onward.wf());
                lemma_run_composes(onward, scale, tail);
                lemma_select_once(exchange, tail);
                let inner_rest = exchange.run(tail);
                match inner_rest.result {
                    Some(Ok(data)) => {
                        assert(onward.proceed(scale, data) == operation.proceed(scale, data));
                        match operation.proceed(scale, data) {
                            StepModel::Next(next) => {
                                lemma_exchange_run_length(exchange, tail);
                                assert(tail.skip(inner_rest.actions.len() as int) =~= replies.skip(
                                    inner.actions.len() as int,
                                ));
                                assert(outer.actions =~= inner.actions + next.run(
                                    scale,
                                    replies.skip(inner.actions.len() as int),
                                ).actions);
                            },
                            StepModel::Done(_) => {},
                        }
                    },
                    _ => {},
                }
            },
            ProgressModel::Done(Err(_)) => {},
            ProgressModel::Done(Ok(data)) => {
                match operation.proceed(scale, data) {
                    StepModel::Next(next) => {
                        assert(next.wf());
                        assert(tail =~= replies.skip(inner.actions.len() as int));
                    },
                    StepModel::Done(_) => {},
                }
            },
        }
    }
}

/// When the transaction in flight meets no failure, the call asks for that
/// transaction's remaining actions and proceeds with the bytes it gathered.
pub proof fn lemma_transaction_succeeds<SpiError, PinError>(
    operation: OperationModel<SpiError, PinError>,
    scale: FullScaleSelection,
    replies: Seq<Reply<SpiError, PinError>>,
)
    requires
        operation.wf(),
        operation.exchange.failure is None,
        replies.len() >= operation.exchange.remaining().len(),
        all_succeed(replies, operation.exchange.remaining().len() as int),
    ensures
        ({
            let planned = operation.exchange.remaining();
            let outer = operation.run(scale, replies);
            match operation.proceed(scale, operation.exchange.gathered(replies)) {
                StepModel::Done(result) => {
                    &&& outer.actions == planned
                    &&& outer.result == Some(result)
                    &&& outer.scale == if result is Ok {
                        operation.finish.scale_after(scale)
                    } else {
                        scale
                    }
                },
                StepModel::Next(next) => {
                    let rest = next.run(scale, replies.skip(planned.len() as int));
                    &&& next.wf()
                    &&& outer.actions == planned + rest.actions
                    &&& outer.result == rest.result
                    &&& outer.scale == rest.scale
                },
            }
        }),
{
    lemma_run_succeeds(operation.exchange, replies);
    lemma_run_composes(operation, scale, replies);
}

/// The handle's range follows the device's: the run of a call that selects
/// a range leaves the handle with that range if the call succeeded, and every
/// other run leaves the handle's range as it was.
pub proof fn lemma_scale_tracks<SpiError, PinError>(
    operation: OperationModel<SpiError, PinError>,
    scale: FullScaleSelection,
    replies: Seq<Reply<SpiError, PinError>>,
)
    requires
        operation.wf(),
    ensures
        ({
            let trace = operation.run(scale, replies);
            trace.scale == if trace.result matches Some(Ok(_)) {
                operation.finish.scale_after(scale)
            } else {
                scale
            }
        }),
    decreases replies.len(),
{
    if replies.len() > 0 {
        lemma_step_shape(operation.exchange, replies[0]);
        match operation.step(scale, replies[0]) {
            StepModel::Next(next) => {
                lemma_scale_tracks(next, scale, replies.skip(1));
            },
            StepModel::Done(_) => {},
        }
    }
}

/// A call succeeds only if every action succeeded: a run that ends well has
/// met no failure.
pub proof fn lemma_success_needs_success<SpiError, PinError>(
    operation: OperationModel<SpiError, PinError>,
    scale: FullScaleSelection,
    replies: Seq<Reply<SpiError, PinError>>,
)
    requires
        operation.wf(),
    ensures
        ({
            let trace = operation.run(scale, replies);
            trace.result matches Some(Ok(_)) ==> {
                &&& operation.exchange.failure is None
                &&& trace.actions.len() <= replies.len()
                &&& all_succeed(replies, trace.actions.len() as int)
            }
        }),
    decreases replies.len(),
{
    let trace = operation.run(scale, replies);
    if replies.len() > 0 {
        lemma_step_shape(operation.exchange, replies[0]);
        match operation.step(scale, replies[0]) {
            StepModel::Next(next) => {
                let tail = replies.skip(1);
                let rest = next.run(scale, tail);
                lemma_success_needs_success(next, scale, tail);
                if trace.result matches Some(Ok(_)) {
                    assert forall|i: int| 0 <= i < trace.actions.len() && i < replies.len() implies !(
                    #[trigger] replies[i]).failed() by {
                        if i > 0 {
                            assert(tail[i - 1] == replies[i]);
                        }
                    }
                }
            },
            StepModel::Done(_) => {},
        }
    }
}

/// The first failure is the call's error: once the reply to an action
/// reports a failure, the run can only end with that failure, and no later
/// step of the script begins.
pub proof fn lemma_first_failure_wins<SpiError, PinError>(
    operation: OperationModel<SpiError, PinError>,
    scale: FullScaleSelection,
    replies: Seq<Reply<SpiError, PinError>>,
    at: int,
)
    requires
        operation.wf(),
        operation.exchange.failure is None,
        0 <= at < replies.len(),
        at < operation.run(scale, replies).actions.len(),
        replies[at].failed(),
        all_succeed(replies, at),
    ensures
        ({
            let trace = operation.run(scale, replies);
            &&& trace.actions.len() <= at + 2
            &&& trace.result is Some ==> trace.result == Some(
                Err::<Output, Error<SpiError, PinError>>(replies[at].outcome()->Err_0),
            )
            &&& trace.scale == scale
        }),
    decreases at,
{
    let trace = operation.run(scale, replies);
    let tail = replies.skip(1);
    lemma_step_shape(operation.exchange, replies[0]);
    if at == 0 {
        match operation.step(scale, replies[0]) {
            StepModel::Next(next) => {
                assert(next.exchange.failure == Some(replies[0].outcome()->Err_0));
                if tail.len() > 0 {
                    assert(next.step(scale, tail[0]) is Done);
                }
                assert(next.run(scale, tail).actions.len() == 1);
            },
            StepModel::Done(_) => {},
        }
    } else {
        assert(!replies[0].failed());
        match operation.step(scale, replies[0]) {
            StepModel::Next(next) => {
                assert forall|i: int| 0 <= i < at - 1 && i < tail.len() implies !(
                #[trigger] tail[i]).failed() by {
                    assert(tail[i] == replies[i + 1]);
                }
                assert(tail[at - 1] == replies[at]);
                lemma_first_failure_wins(next, scale, tail, at - 1);
            },
            StepModel::Done(_) => {},
        }
    }
}

} // verus!
