//! What every run of a transaction looks like on the bus.
//!
//! A run feeds an exchange one reply after the other. Its trace is the list
//! of actions that the exchange asked for, and the result if the run came to
//! an end.
use crate::bus::{Action, Reply};
use crate::error::Error;
use crate::exchange::{Body, ExchangeModel, Phase, ProgressModel};
use vstd::prelude::*;

verus! {

/// What a run shows: the actions asked for, in order, and the result once the
/// transaction is over.
pub ghost struct Trace<SpiError, PinError> {
    pub actions: Seq<Action>,
    pub result: Option<Result<Seq<u8>, Error<SpiError, PinError>>>,
}

impl<SpiError, PinError> ExchangeModel<SpiError, PinError> {
    /// The run of the exchange on `replies`: the first reply answers the
    /// pending action, the next one the action after it, and so on until the
    /// replies run out or the transaction is over.
    pub open spec fn run(self, replies: Seq<Reply<SpiError, PinError>>) -> Trace<
        SpiError,
        PinError,
    >
        decreases replies.len(),
    {
        if replies.len() == 0 {
            Trace { actions: seq![self.pending()], result: None }
        } else {
            match self.step(replies[0]) {
                ProgressModel::Next(next) => {
                    let rest = next.run(replies.skip(1));
                    Trace { actions: seq![self.pending()] + rest.actions, result: rest.result }
                },
                ProgressModel::Done(result) => Trace {
                    actions: seq![self.pending()],
                    result: Some(result),
                },
            }
        }
    }

    /// The actions from the pending one to the end of the transaction, when
    /// nothing fails.
    pub open spec fn remaining(self) -> Seq<Action> {
        match self.phase {
            Phase::Selecting => self.plan(),
            Phase::Commanding => seq![Action::Send(self.command)] + self.body.actions()
                + seq![Action::Deselect],
            Phase::Writing => seq![self.pending(), Action::Deselect],
            Phase::Reading => Seq::new(
                (self.body.reads() - self.received.len()) as nat,
                |i: int| Action::Receive,
            ) + seq![Action::Deselect],
            Phase::Releasing => seq![Action::Deselect],
        }
    }

    /// The number of actions that come before the first data byte.
    pub open spec fn lead(self) -> int {
        match self.phase {
            Phase::Selecting => 2,
            Phase::Commanding => 1,
            _ => 0,
        }
    }

    /// The bytes that the transaction still has to receive.
    pub open spec fn missing(self) -> nat {
        (self.body.reads() - self.received.len()) as nat
    }

    /// The bytes that the transaction hands back when every action succeeds:
    /// those it has, then the bytes of the replies to its receive actions, in
    /// order.
    pub open spec fn gathered(self, replies: Seq<Reply<SpiError, PinError>>) -> Seq<u8> {
        self.received + Seq::new(
            self.missing(),
            |i: int| replies[self.lead() + i].outcome()->Ok_0,
        )
    }
}

/// Whether none of the first `count` replies reports a failure.
pub open spec fn all_succeed<SpiError, PinError>(
    replies: Seq<Reply<SpiError, PinError>>,
    count: int,
) -> bool {
    forall|i: int| 0 <= i < count && i < replies.len() ==> !(#[trigger] replies[i]).failed()
}

/// A step never leads back to driving chip-select low, keeps the command and
/// the body, and keeps no failure unless the reply reported one.
pub proof fn lemma_step_shape<SpiError, PinError>(
    exchange: ExchangeModel<SpiError, PinError>,
    reply: Reply<SpiError, PinError>,
)
    requires
        exchange.wf(),
    ensures
        exchange.step(reply) matches ProgressModel::Next(next) ==> {
            &&& next.wf()
            &&& !(next.phase is Selecting)
            &&& !(exchange.phase is Releasing)
            &&& next.command == exchange.command
            &&& next.body == exchange.body
            &&& (exchange.failure is None && !reply.failed()) ==> next.failure is None
        },
        exchange.step(reply) matches ProgressModel::Done(result) ==> {
            ||| exchange.pending() == Action::Deselect
            ||| exchange.phase is Selecting && reply.failed()
        },
        exchange.step(reply) matches ProgressModel::Done(Ok(data)) ==> {
            &&& data.len() == exchange.body.reads()
            &&& data == exchange.received
            &&& !reply.failed()
            &&& exchange.failure is None
        },
{
}

/// Chip-select goes low once and high once.
///
/// In every run of a transaction, whatever the replies, a request to drive
/// chip-select low can only be the first action, and a request to drive it
/// high can only be the last. A run that has come to an end has asked for
/// chip-select high as its last action, unless the very first action, driving
/// it low, failed: then the run ended there.
pub proof fn lemma_select_once<SpiError, PinError>(
    exchange: ExchangeModel<SpiError, PinError>,
    replies: Seq<Reply<SpiError, PinError>>,
)
    requires
        exchange.wf(),
    ensures
        ({
            let trace = exchange.run(replies);
            &&& trace.actions.len() >= 1
            &&& trace.actions[0] == exchange.pending()
            &&& forall|i: int|
                1 <= i < trace.actions.len() ==> #[trigger] trace.actions[i] != Action::Select
            &&& forall|i: int|
                0 <= i < trace.actions.len() && #[trigger] trace.actions[i] == Action::Deselect
                    ==> i == trace.actions.len() - 1
            &&& trace.result is Some ==> {
                ||| trace.actions.last() == Action::Deselect
                ||| (exchange.phase is Selecting && trace.actions.len() == 1
                    && replies[0].failed())
            }
        }),
    decreases replies.len(),
{
    let trace = exchange.run(replies);
    if replies.len() > 0 {
        lemma_step_shape(exchange, replies[0]);
        match exchange.step(replies[0]) {
            ProgressModel::Next(next) => {
                let rest = next.run(replies.skip(1));
                lemma_select_once(next, replies.skip(1));
                assert(trace.actions == seq![exchange.pending()] + rest.actions);
                assert forall|i: int| 1 <= i < trace.actions.len() implies #[trigger] trace.actions[i]
                    != Action::Select by {
                    assert(trace.actions[i] == rest.actions[i - 1]);
                }
                assert forall|i: int|
                    0 <= i < trace.actions.len() && #[trigger] trace.actions[i]
                        == Action::Deselect implies i == trace.actions.len() - 1 by {
                    if i >= 1 {
                        assert(trace.actions[i] == rest.actions[i - 1]);
                    }
                }
                assert(trace.actions.last() == rest.actions.last());
            },
            ProgressModel::Done(_) => {},
        }
    }
}

/// One successful step takes the first of the remaining actions away.
pub proof fn lemma_step_consumes<SpiError, PinError>(
    exchange: ExchangeModel<SpiError, PinError>,
    reply: Reply<SpiError, PinError>,
)
    requires
        exchange.wf(),
        exchange.failure is None,
        !reply.failed(),
    ensures
        exchange.remaining().len() >= 1,
        exchange.remaining()[0] == exchange.pending(),
        exchange.remaining().last() == Action::Deselect,
        forall|i: int|
            1 <= i < exchange.remaining().len() ==> #[trigger] exchange.remaining()[i]
                != Action::Select,
        exchange.remaining().len() == 1 ==> exchange.missing() == 0 && exchange.step(reply)
            == ProgressModel::<SpiError, PinError>::Done(Ok(exchange.received)),
        exchange.remaining().len() > 1 ==> (exchange.step(reply) matches ProgressModel::Next(next)
            && {
            &&& next.wf()
            &&& next.failure is None
            &&& next.remaining() == exchange.remaining().skip(1)
        }),
{
    match exchange.step(reply) {
        ProgressModel::Next(next) => {
            assert(next.remaining() =~= exchange.remaining().skip(1));
        },
        ProgressModel::Done(_) => {},
    }
}

/// One successful step changes nothing in what the transaction will hand
/// back.
proof fn lemma_step_gathers<SpiError, PinError>(
    exchange: ExchangeModel<SpiError, PinError>,
    replies: Seq<Reply<SpiError, PinError>>,
)
    requires
        exchange.wf(),
        replies.len() >= exchange.remaining().len(),
        !replies[0].failed(),
    ensures
        exchange.step(replies[0]) matches ProgressModel::Next(next) ==> next.gathered(
            replies.skip(1),
        ) == exchange.gathered(replies),
{
    match exchange.step(replies[0]) {
        ProgressModel::Next(next) => {
            assert(next.gathered(replies.skip(1)) =~= exchange.gathered(replies));
        },
        ProgressModel::Done(_) => {},
    }
}

/// When nothing fails, a transaction asks for exactly its remaining actions
/// and hands back the bytes received, in the order in which they came.
pub proof fn lemma_run_succeeds<SpiError, PinError>(
    exchange: ExchangeModel<SpiError, PinError>,
    replies: Seq<Reply<SpiError, PinError>>,
)
    requires
        exchange.wf(),
        exchange.failure is None,
        replies.len() >= exchange.remaining().len(),
        all_succeed(replies, exchange.remaining().len() as int),
    ensures
        exchange.run(replies).actions == exchange.remaining(),
        exchange.run(replies).result == Some(
            Ok::<Seq<u8>, Error<SpiError, PinError>>(exchange.gathered(replies)),
        ),
    decreases replies.len(),
{
    let plan = exchange.remaining();
    assert(!replies[0].failed());
    lemma_step_consumes(exchange, replies[0]);
    lemma_step_gathers(exchange, replies);
    if plan.len() > 1 {
        let next = exchange.step(replies[0])->Next_0;
        let rest = replies.skip(1);
        assert forall|i: int| 0 <= i < next.remaining().len() && i < rest.len() implies !(
        #[trigger] rest[i]).failed() by {
            assert(rest[i] == replies[i + 1]);
        }
        lemma_run_succeeds(next, rest);
        assert(exchange.run(replies).actions =~= plan);
    } else {
        assert(exchange.run(replies).actions =~= plan);
        assert(exchange.gathered(replies) =~= exchange.received);
    }
}

/// The first failure is the transaction's error, and chip-select is released
/// before the transaction ends.
///
/// Let the reply to the action at `at` be the first that reports a failure.
/// If that action drives chip-select, low at the start or high at the end,
/// the run ends right there with the failure. If it is a transfer, the run
/// asks for one more action, chip-select high, and ends with the failure
/// however that last action goes. No byte received before the failure is
/// handed back.
pub proof fn lemma_run_fails<SpiError, PinError>(
    exchange: ExchangeModel<SpiError, PinError>,
    replies: Seq<Reply<SpiError, PinError>>,
    at: int,
)
    requires
        exchange.wf(),
        exchange.failure is None,
        0 <= at < replies.len(),
        at < exchange.remaining().len(),
        replies[at].failed(),
        all_succeed(replies, at),
    ensures
        ({
            let trace = exchange.run(replies);
            let plan = exchange.remaining();
            let failure = replies[at].outcome()->Err_0;
            if plan[at] == Action::Select || at == plan.len() - 1 {
                &&& trace.actions == plan.take(at + 1)
                &&& trace.result == Some(Err::<Seq<u8>, Error<SpiError, PinError>>(failure))
            } else {
                &&& trace.actions == plan.take(at + 1) + seq![Action::Deselect]
                &&& trace.result == if replies.len() > at + 1 {
                    Some(Err::<Seq<u8>, Error<SpiError, PinError>>(failure))
                } else {
                    None
                }
            }
        }),
    decreases at,
{
    let trace = exchange.run(replies);
    let plan = exchange.remaining();
    let rest = replies.skip(1);
    if at == 0 {
        match exchange.phase {
            Phase::Selecting => {
                assert(trace.actions =~= plan.take(1));
            },
            Phase::Releasing => {
                assert(trace.actions =~= plan.take(1));
            },
            _ => {
                let next = exchange.step(replies[0])->Next_0;
                assert(next.phase is Releasing && next.failure is Some);
                if rest.len() > 0 {
                    assert(next.step(rest[0]) is Done);
                }
                assert(next.run(rest).actions =~= seq![Action::Deselect]);
                assert(trace.actions =~= plan.take(1) + seq![Action::Deselect]);
            },
        }
    } else {
        assert(!replies[0].failed());
        lemma_step_consumes(exchange, replies[0]);
        let next = exchange.step(replies[0])->Next_0;
        assert forall|i: int| 0 <= i < at - 1 && i < rest.len() implies !(#[trigger] rest[i]).failed() by {
            assert(rest[i] == replies[i + 1]);
        }
        assert(rest[at - 1] == replies[at]);
        lemma_run_fails(next, rest, at - 1);
        let tail = next.remaining();
        assert(tail == plan.skip(1));
        assert(tail[at - 1] == plan[at]);
        assert(plan[at] != Action::Select);
        assert(plan.take(at + 1) =~= seq![exchange.pending()] + tail.take(at));
        if at == plan.len() - 1 {
            assert(trace.actions =~= plan.take(at + 1));
        } else {
            assert(trace.actions =~= plan.take(at + 1) + seq![Action::Deselect]);
        }
    }
}

/// A transaction's run that has come to an end has used one reply for each
/// action.
pub proof fn lemma_exchange_run_length<SpiError, PinError>(
    exchange: ExchangeModel<SpiError, PinError>,
    replies: Seq<Reply<SpiError, PinError>>,
)
    ensures
        ({
            let trace = exchange.run(replies);
            &&& trace.result is Some ==> trace.actions.len() <= replies.len()
            &&& trace.result is None ==> trace.actions.len() == replies.len() + 1
        }),
    decreases replies.len(),
{
    if replies.len() > 0 {
        match exchange.step(replies[0]) {
            ProgressModel::Next(next) => {
                lemma_exchange_run_length(next, replies.skip(1));
            },
            ProgressModel::Done(_) => {},
        }
    }
}

/// A transaction ends well only if all its actions were carried out and none
/// failed.
pub proof fn lemma_success_is_complete<SpiError, PinError>(
    exchange: ExchangeModel<SpiError, PinError>,
    replies: Seq<Reply<SpiError, PinError>>,
)
    requires
        exchange.wf(),
    ensures
        exchange.run(replies).result matches Some(Ok(data)) ==> {
            &&& exchange.failure is None
            &&& replies.len() >= exchange.remaining().len()
            &&& all_succeed(replies, exchange.remaining().len() as int)
            &&& data == exchange.gathered(replies)
            &&& exchange.run(replies).actions == exchange.remaining()
        },
    decreases replies.len(),
{
    if exchange.run(replies).result matches Some(Ok(data)) {
        let tail = replies.skip(1);
        lemma_step_shape(exchange, replies[0]);
        match exchange.step(replies[0]) {
            ProgressModel::Next(next) => {
                lemma_success_is_complete(next, tail);
                lemma_step_consumes(exchange, replies[0]);
                assert forall|i: int|
                    0 <= i < exchange.remaining().len() && i < replies.len() implies !(
                #[trigger] replies[i]).failed() by {
                    if i > 0 {
                        assert(tail[i - 1] == replies[i]);
                    }
                }
            },
            ProgressModel::Done(_) => {
                lemma_step_consumes(exchange, replies[0]);
            },
        }
        lemma_run_succeeds(exchange, replies);
    }
}

} // verus!
