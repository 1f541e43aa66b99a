//! Chip-select over a whole driver call.
//!
//! A call runs one transaction after the other. Whatever the bus replies,
//! chip-select goes low at the start of each transaction and high at its end,
//! bytes move only in between, and no call ends with chip-select left low.
use crate::bus::{Action, Reply};
use crate::calls::Call;
use crate::framing::{lemma_select_once, lemma_step_shape};
use crate::operation::{OperationModel, RegOp, StepModel};
use crate::reg::FullScaleSelection;
use crate::running::lemma_run_composes;
use vstd::prelude::*;

verus! {

/// Whether chip-select is low after `actions`, given that it was low before
/// them or not.
pub open spec fn low_after(actions: Seq<Action>, low: bool) -> bool
    decreases actions.len(),
{
    if actions.len() == 0 {
        low
    } else {
        match actions[0] {
            Action::Select => low_after(actions.skip(1), true),
            Action::Deselect => low_after(actions.skip(1), false),
            _ => low_after(actions.skip(1), low),
        }
    }
}

/// Whether `actions` keep the discipline of chip-select, given that it was
/// low before them or not: it is driven low only while high, it is driven
/// high only while low, and a byte is sent or received only while it is low.
pub open spec fn disciplined(actions: Seq<Action>, low: bool) -> bool
    decreases actions.len(),
{
    if actions.len() == 0 {
        true
    } else {
        match actions[0] {
            Action::Select => !low && disciplined(actions.skip(1), true),
            Action::Deselect => low && disciplined(actions.skip(1), false),
            _ => low && disciplined(actions.skip(1), true),
        }
    }
}

/// What chip-select is after an action, given what it was before.
pub open spec fn low_next(action: Action, low: bool) -> bool {
    match action {
        Action::Select => true,
        Action::Deselect => false,
        _ => low,
    }
}

/// Whether the action is in order, given that chip-select is low or not.
pub open spec fn in_order(action: Action, low: bool) -> bool {
    match action {
        Action::Select => !low,
        _ => low,
    }
}

/// The discipline of a list of actions is that of its first action and of
/// the rest.
pub proof fn lemma_discipline_unfolds(action: Action, rest: Seq<Action>, low: bool)
    ensures
        disciplined(seq![action] + rest, low) == (in_order(action, low) && disciplined(
            rest,
            low_next(action, low),
        )),
        low_after(seq![action] + rest, low) == low_after(rest, low_next(action, low)),
{
    let all = seq![action] + rest;
    assert(all.skip(1) =~= rest);
    assert(all[0] == action);
}

/// Every step of an operation is a step of its transaction in flight, so what
/// holds of the one holds of the other; and where a transaction ends and the
/// call goes on, the next transaction begins with chip-select high.
pub proof fn lemma_operation_step<SpiError, PinError>(
    operation: OperationModel<SpiError, PinError>,
    scale: FullScaleSelection,
    reply: Reply<SpiError, PinError>,
)
    requires
        operation.wf(),
    ensures
        operation.step(scale, reply) matches StepModel::Next(next) ==> {
            &&& next.wf()
            &&& next.script == operation.script
            &&& next.finish == operation.finish
            &&& operation.pending() == Action::Select ==> next.holds_select()
            &&& operation.pending() == Action::Deselect ==> !next.holds_select()
            &&& (operation.pending() is Send || operation.pending() is Receive)
                ==> next.holds_select()
        },
        operation.step(scale, reply) matches StepModel::Done(result) ==> {
            ||| operation.pending() == Action::Deselect
            ||| operation.pending() == Action::Select && reply.failed()
        },
        operation.pending() == Action::Select <==> !operation.holds_select(),
{
    lemma_step_shape(operation.exchange, reply);
}

/// No call leaves chip-select low.
///
/// In every run of an operation, whatever the replies, the actions keep the
/// discipline of chip-select. A run that has come to an end leaves
/// chip-select high, unless its last action was to drive it low and that
/// failed: then nothing was sent.
pub proof fn lemma_run_disciplined<SpiError, PinError>(
    operation: OperationModel<SpiError, PinError>,
    scale: FullScaleSelection,
    replies: Seq<Reply<SpiError, PinError>>,
)
    requires
        operation.wf(),
    ensures
        ({
            let trace = operation.run(scale, replies);
            &&& trace.actions.len() >= 1
            &&& trace.result is Some ==> trace.actions.len() <= replies.len()
            &&& trace.result is None ==> trace.actions.len() == replies.len() + 1
            &&& disciplined(trace.actions, operation.holds_select())
            &&& trace.result is Some ==> {
                ||| !low_after(trace.actions, operation.holds_select())
                ||| trace.actions.last() == Action::Select && replies[trace.actions.len() - 1].failed()
            }
        }),
    decreases replies.len(),
{
    let trace = operation.run(scale, replies);
    let low = operation.holds_select();
    let pending = operation.pending();
    let none = Seq::<Action>::empty();
    assert(seq![pending] + none =~= seq![pending]);
    lemma_discipline_unfolds(pending, none, low);
    if replies.len() > 0 {
        lemma_operation_step(operation, scale, replies[0]);
        match operation.step(scale, replies[0]) {
            StepModel::Next(next) => {
                let rest = next.run(scale, replies.skip(1));
                lemma_run_disciplined(next, scale, replies.skip(1));
                lemma_discipline_unfolds(pending, rest.actions, low);
                assert(next.holds_select() == low_next(pending, low));
                assert(trace.actions.last() == rest.actions.last());
                if trace.result is Some {
                    assert(replies.skip(1)[rest.actions.len() - 1] == replies[trace.actions.len()
                        - 1]);
                }
            },
            StepModel::Done(_) => {},
        }
    } else {
        lemma_operation_step(operation, scale, Reply::Done);
    }
}

/// A call of one transaction drives chip-select low once and high once.
///
/// Where the script is a single read or burst read, the actions of the
/// call are those of its transaction, whatever the replies: a request to
/// drive chip-select low is the first action and no other, a request to
/// drive it high can only be the last, and a run that has come to an end has
/// asked for chip-select high as its last action, unless driving it low
/// failed.
pub proof fn lemma_single_transaction_once<SpiError, PinError>(
    operation: OperationModel<SpiError, PinError>,
    scale: FullScaleSelection,
    replies: Seq<Reply<SpiError, PinError>>,
)
    requires
        operation.wf(),
        operation.script.len() == 1,
        !(operation.current() is Modify),
        operation.exchange.phase is Selecting,
    ensures
        ({
            let trace = operation.run(scale, replies);
            &&& trace.actions == operation.exchange.run(replies).actions
            &&& trace.actions.len() >= 1
            &&& trace.actions[0] == Action::Select
            &&& forall|i: int|
                1 <= i < trace.actions.len() ==> #[trigger] trace.actions[i] != Action::Select
            &&& forall|i: int|
                0 <= i < trace.actions.len() && #[trigger] trace.actions[i] == Action::Deselect
                    ==> i == trace.actions.len() - 1
            &&& trace.result is Some ==> {
                ||| trace.actions.last() == Action::Deselect
                ||| trace.actions.len() == 1 && replies[0].failed()
            }
        }),
{
    lemma_run_composes(operation, scale, replies);
    lemma_select_once(operation.exchange, replies);
}

/// Every driver call begins with chip-select high and with a script that its
/// result can be read from.
pub proof fn lemma_call_begins<SpiError, PinError>(call: Call)
    ensures
        call.begin::<SpiError, PinError>().wf(),
        !call.begin::<SpiError, PinError>().holds_select(),
{
    let operation = call.begin::<SpiError, PinError>();
    let script = call.script();
    assert(script.len() >= 1);
    assert(operation.current() == script[0]);
    match script[0] {
        RegOp::Read(_) => {},
        RegOp::Burst(_, _) => {},
        RegOp::Modify(_, _) => {},
    }
}

/// Every driver call keeps the discipline of chip-select, whether the bus
/// succeeds or fails at any point.
pub proof fn lemma_every_call_disciplined<SpiError, PinError>(
    call: Call,
    scale: FullScaleSelection,
    replies: Seq<Reply<SpiError, PinError>>,
)
    ensures
        ({
            let trace = call.begin::<SpiError, PinError>().run(scale, replies);
            &&& disciplined(trace.actions, false)
            &&& trace.result is Some ==> {
                ||| !low_after(trace.actions, false)
                ||| trace.actions.last() == Action::Select && replies[trace.actions.len() - 1].failed()
            }
        }),
{
    lemma_call_begins::<SpiError, PinError>(call);
    lemma_run_disciplined(call.begin::<SpiError, PinError>(), scale, replies);
}

} // verus!
