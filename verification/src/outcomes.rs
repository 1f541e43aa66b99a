//! What the driver's calls do on a bus that works, and what they make of the
//! bytes that come back.
#![allow(non_upper_case_globals)]

use crate::bus::{Action, Reply};
use crate::calls::Call;
use crate::decode::{axes_of, normalized};
use crate::discipline::{lemma_call_begins, lemma_single_transaction_once};
use crate::error::Error;
use crate::exchange::{read_command, write_command, Body, ExchangeModel};
use crate::framing::{all_succeed, lemma_success_is_complete};
use crate::operation::{OperationModel, Output, Patch, StepModel};
use crate::reg::{
    FullScaleSelection, LPen, OperatingMode, OutputDataRate, Register, DEVICE_ID, FS_MASK, HR,
    ODR_MASK,
};
use crate::running::{lemma_run_composes, lemma_transaction_succeeds};
use vstd::prelude::*;

verus! {

/// The byte that the reply carries.
pub open spec fn byte_of<SpiError, PinError>(reply: Reply<SpiError, PinError>) -> u8 {
    reply.outcome()->Ok_0
}

/// A single read on a bus that works: the four actions of the transaction,
/// and then what the call proceeds with, given the byte that came back.
pub proof fn lemma_read_runs<SpiError, PinError>(
    operation: OperationModel<SpiError, PinError>,
    scale: FullScaleSelection,
    replies: Seq<Reply<SpiError, PinError>>,
)
    requires
        operation.wf(),
        operation.exchange == ExchangeModel::<SpiError, PinError>::fresh(
            operation.exchange.command,
            Body::Read(1),
        ),
        replies.len() >= 4,
        all_succeed(replies, 4),
    ensures
        ({
            let trace = operation.run(scale, replies);
            let read = seq![
                Action::Select,
                Action::Send(operation.exchange.command),
                Action::Receive,
                Action::Deselect,
            ];
            match operation.proceed(scale, seq![byte_of(replies[2])]) {
                StepModel::Done(result) => {
                    &&& trace.actions == read
                    &&& trace.result == Some(result)
                    &&& trace.scale == if result is Ok {
                        operation.finish.scale_after(scale)
                    } else {
                        scale
                    }
                },
                StepModel::Next(next) => {
                    let rest = next.run(scale, replies.skip(4));
                    &&& next.wf()
                    &&& trace.actions == read + rest.actions
                    &&& trace.result == rest.result
                    &&& trace.scale == rest.scale
                },
            }
        }),
{
    let read = seq![
        Action::Select,
        Action::Send(operation.exchange.command),
        Action::Receive,
        Action::Deselect,
    ];
    assert(operation.exchange.remaining() =~= read);
    assert(operation.exchange.gathered(replies) =~= seq![byte_of(replies[2])]);
    lemma_transaction_succeeds(operation, scale, replies);
}

/// A single write on a bus that works: the four actions of the transaction,
/// and then what the call proceeds with.
pub proof fn lemma_write_runs<SpiError, PinError>(
    operation: OperationModel<SpiError, PinError>,
    scale: FullScaleSelection,
    replies: Seq<Reply<SpiError, PinError>>,
)
    requires
        operation.wf(),
        operation.exchange.body is Write,
        operation.exchange == ExchangeModel::<SpiError, PinError>::fresh(
            operation.exchange.command,
            operation.exchange.body,
        ),
        replies.len() >= 4,
        all_succeed(replies, 4),
    ensures
        ({
            let trace = operation.run(scale, replies);
            let write = seq![
                Action::Select,
                Action::Send(operation.exchange.command),
                Action::Send(operation.exchange.body->Write_0),
                Action::Deselect,
            ];
            match operation.proceed(scale, Seq::empty()) {
                StepModel::Done(result) => {
                    &&& trace.actions == write
                    &&& trace.result == Some(result)
                    &&& trace.scale == if result is Ok {
                        operation.finish.scale_after(scale)
                    } else {
                        scale
                    }
                },
                StepModel::Next(next) => {
                    let rest = next.run(scale, replies.skip(4));
                    &&& next.wf()
                    &&& trace.actions == write + rest.actions
                    &&& trace.result == rest.result
                    &&& trace.scale == rest.scale
                },
            }
        }),
{
    let write = seq![
        Action::Select,
        Action::Send(operation.exchange.command),
        Action::Send(operation.exchange.body->Write_0),
        Action::Deselect,
    ];
    assert(operation.exchange.remaining() =~= write);
    assert(operation.exchange.gathered(replies) =~= Seq::<u8>::empty());
    lemma_transaction_succeeds(operation, scale, replies);
}

/// A read-modify-write step on a bus that works: the register is read in one
/// transaction, and the byte that came back, patched, is written in a second
/// one. The call then proceeds with its next step, or ends.
pub proof fn lemma_modify_runs<SpiError, PinError>(
    operation: OperationModel<SpiError, PinError>,
    scale: FullScaleSelection,
    replies: Seq<Reply<SpiError, PinError>>,
)
    requires
        operation.wf(),
        operation.current() is Modify,
        !operation.writing_back,
        operation.exchange == operation.current().opening::<SpiError, PinError>(),
        replies.len() >= 8,
        all_succeed(replies, 8),
    ensures
        ({
            let register = operation.current()->Modify_0;
            let patch = operation.current()->Modify_1;
            let trace = operation.run(scale, replies);
            let both = seq![
                Action::Select,
                Action::Send(read_command(register.addr())),
                Action::Receive,
                Action::Deselect,
                Action::Select,
                Action::Send(write_command(register.addr())),
                Action::Send(patch.applied(byte_of(replies[2]))),
                Action::Deselect,
            ];
            let written = OperationModel { writing_back: true, ..operation };
            match written.proceed(scale, Seq::empty()) {
                StepModel::Done(result) => {
                    &&& trace.actions == both
                    &&& trace.result == Some(result)
                    &&& trace.scale == if result is Ok {
                        operation.finish.scale_after(scale)
                    } else {
                        scale
                    }
                },
                StepModel::Next(next) => {
                    let rest = next.run(scale, replies.skip(8));
                    &&& next.wf()
                    &&& trace.actions == both + rest.actions
                    &&& trace.result == rest.result
                    &&& trace.scale == rest.scale
                },
            }
        }),
{
    let register = operation.current()->Modify_0;
    let patch = operation.current()->Modify_1;
    let trace = operation.run(scale, replies);
    let current = byte_of(replies[2]);
    let read = seq![
        Action::Select,
        Action::Send(read_command(register.addr())),
        Action::Receive,
        Action::Deselect,
    ];
    let write = seq![
        Action::Select,
        Action::Send(write_command(register.addr())),
        Action::Send(patch.applied(current)),
        Action::Deselect,
    ];
    let both = seq![
        Action::Select,
        Action::Send(read_command(register.addr())),
        Action::Receive,
        Action::Deselect,
        Action::Select,
        Action::Send(write_command(register.addr())),
        Action::Send(patch.applied(current)),
        Action::Deselect,
    ];
    assert(read + write =~= both);
    lemma_read_runs(operation, scale, replies);
    let writing = operation.proceed(scale, seq![current])->Next_0;
    let rest = replies.skip(4);
    assert(all_succeed(rest, 4)) by {
        assert forall|i: int| 0 <= i < 4 && i < rest.len() implies !(#[trigger] rest[i]).failed() by {
            assert(rest[i] == replies[i + 4]);
        }
    }
    lemma_write_runs(writing, scale, rest);
    let written = OperationModel { writing_back: true, ..operation };
    assert(writing.proceed(scale, Seq::empty()) == written.proceed(scale, Seq::empty()));
    assert(rest.skip(4) =~= replies.skip(8));
    match written.proceed(scale, Seq::empty()) {
        StepModel::Done(_) => {},
        StepModel::Next(next) => {
            let tail = next.run(scale, replies.skip(8)).actions;
            assert(read + (write + tail) =~= both + tail);
        },
    }
}

/// The eight actions of a read-modify-write of `register` that writes
/// `written` back.
pub open spec fn modify_actions(register: Register, written: u8) -> Seq<Action> {
    seq![
        Action::Select,
        Action::Send(read_command(register.addr())),
        Action::Receive,
        Action::Deselect,
        Action::Select,
        Action::Send(write_command(register.addr())),
        Action::Send(written),
        Action::Deselect,
    ]
}

/// A call that reads, on a bus that works: where the script is one read or
/// one burst read, the call asks for the actions of that transaction and
/// hands back what its bytes decode to.
pub proof fn lemma_reading_call<SpiError, PinError>(
    call: Call,
    scale: FullScaleSelection,
    replies: Seq<Reply<SpiError, PinError>>,
)
    requires
        call.script().len() == 1,
        call.script()[0] is Read || call.script()[0] is Burst,
        replies.len() >= call.script()[0].yields() + 3,
        all_succeed(replies, call.script()[0].yields() as int + 3),
    ensures
        ({
            let begin = call.begin::<SpiError, PinError>();
            let trace = begin.run(scale, replies);
            let bytes = Seq::new(call.script()[0].yields(), |i: int| byte_of(replies[2 + i]));
            &&& trace.actions == begin.exchange.plan()
            &&& trace.result == Some(call.finish().concluded::<SpiError, PinError>(scale, bytes))
            &&& trace.scale == scale
        }),
{
    let begin = call.begin::<SpiError, PinError>();
    lemma_call_begins::<SpiError, PinError>(call);
    let bytes = Seq::new(call.script()[0].yields(), |i: int| byte_of(replies[2 + i]));
    assert(begin.exchange.remaining().len() == call.script()[0].yields() + 3);
    assert(begin.exchange.gathered(replies) =~= bytes);
    lemma_transaction_succeeds(begin, scale, replies);
    assert(!(call.finish() is Scale));
}

/// The identity check on a bus that works: the identity register is read in
/// one transaction, chip-select low once and high once, and the check
/// succeeds if the byte is the device's identity; any other byte is an
/// identity mismatch that carries it.
pub proof fn lemma_check_who_am_i<SpiError, PinError>(
    scale: FullScaleSelection,
    replies: Seq<Reply<SpiError, PinError>>,
)
    requires
        replies.len() >= 4,
        all_succeed(replies, 4),
    ensures
        ({
            let trace = Call::CheckWhoAmI.begin::<SpiError, PinError>().run(scale, replies);
            let identity = byte_of(replies[2]);
            &&& trace.actions == seq![
                Action::Select,
                Action::Send(0x8Fu8),
                Action::Receive,
                Action::Deselect,
            ]
            &&& trace.result == Some(
                if identity == 0x33 {
                    Ok::<Output, Error<SpiError, PinError>>(Output::Unit)
                } else {
                    Err::<Output, Error<SpiError, PinError>>(Error::InvalidWhoAmI(identity))
                },
            )
            &&& trace.scale == scale
        }),
{
    let call = Call::CheckWhoAmI;
    assert(0x80u8 | 0x0Fu8 == 0x8Fu8) by (bit_vector);
    lemma_reading_call(call, scale, replies);
    let bytes = Seq::new(1, |i: int| byte_of(replies[2 + i]));
    assert(bytes[0] == byte_of(replies[2]));
    assert(call.begin::<SpiError, PinError>().exchange.plan() =~= seq![
        Action::Select,
        Action::Send(0x8Fu8),
        Action::Receive,
        Action::Deselect,
    ]);
}

/// The identity check and the read of the device's identity ask the same of
/// the bus, whatever the replies: the check differs only in what it makes of
/// the byte.
pub proof fn lemma_check_reads_as_device_id<SpiError, PinError>(
    scale: FullScaleSelection,
    replies: Seq<Reply<SpiError, PinError>>,
)
    ensures
        Call::CheckWhoAmI.begin::<SpiError, PinError>().run(scale, replies).actions
            == Call::GetDeviceId.begin::<SpiError, PinError>().run(scale, replies).actions,
{
    let check = Call::CheckWhoAmI.begin::<SpiError, PinError>();
    let read = Call::GetDeviceId.begin::<SpiError, PinError>();
    lemma_call_begins::<SpiError, PinError>(Call::CheckWhoAmI);
    lemma_call_begins::<SpiError, PinError>(Call::GetDeviceId);
    lemma_single_transaction_once(check, scale, replies);
    lemma_single_transaction_once(read, scale, replies);
}

/// The identity check succeeds only on the device's identity: a run that
/// ends well has carried out all four actions without a failure, and the
/// byte that came back is the device's identity.
pub proof fn lemma_identity_only<SpiError, PinError>(
    scale: FullScaleSelection,
    replies: Seq<Reply<SpiError, PinError>>,
)
    ensures
        Call::CheckWhoAmI.begin::<SpiError, PinError>().run(scale, replies).result matches Some(
            Ok(_),
        ) ==> {
            &&& replies.len() >= 4
            &&& all_succeed(replies, 4)
            &&& byte_of(replies[2]) == DEVICE_ID
        },
{
    let call = Call::CheckWhoAmI;
    let begin = call.begin::<SpiError, PinError>();
    lemma_call_begins::<SpiError, PinError>(call);
    if begin.run(scale, replies).result matches Some(Ok(_)) {
        lemma_run_composes(begin, scale, replies);
        lemma_success_is_complete(begin.exchange, replies);
        assert(begin.exchange.remaining().len() == 4);
        lemma_check_who_am_i(scale, replies);
    }
}

/// A call that modifies one register, on a bus that works: the register is
/// read, and the byte that came back is written back with the call's patch
/// applied. If the call selects a full-scale range, the handle holds that
/// range afterwards.
pub proof fn lemma_modifying_call<SpiError, PinError>(
    call: Call,
    scale: FullScaleSelection,
    replies: Seq<Reply<SpiError, PinError>>,
)
    requires
        call.script().len() == 1,
        call.script()[0] is Modify,
        replies.len() >= 8,
        all_succeed(replies, 8),
    ensures
        ({
            let trace = call.begin::<SpiError, PinError>().run(scale, replies);
            let register = call.script()[0]->Modify_0;
            let patch = call.script()[0]->Modify_1;
            &&& trace.actions == modify_actions(register, patch.applied(byte_of(replies[2])))
            &&& trace.result == Some(Ok::<Output, Error<SpiError, PinError>>(Output::Unit))
            &&& trace.scale == call.finish().scale_after(scale)
        }),
{
    let begin = call.begin::<SpiError, PinError>();
    lemma_call_begins::<SpiError, PinError>(call);
    lemma_modify_runs(begin, scale, replies);
    assert(call.finish() is Nothing || call.finish() is Scale);
}

/// A call that modifies two registers, on a bus that works: the first
/// register is read and written back, then the second, each with its own
/// patch applied to the byte that was read from it.
pub proof fn lemma_twice_modifying_call<SpiError, PinError>(
    call: Call,
    scale: FullScaleSelection,
    replies: Seq<Reply<SpiError, PinError>>,
)
    requires
        call.script().len() == 2,
        call.script()[0] is Modify,
        call.script()[1] is Modify,
        replies.len() >= 16,
        all_succeed(replies, 16),
    ensures
        ({
            let trace = call.begin::<SpiError, PinError>().run(scale, replies);
            let first = call.script()[0];
            let second = call.script()[1];
            &&& trace.actions == modify_actions(
                first->Modify_0,
                first->Modify_1.applied(byte_of(replies[2])),
            ) + modify_actions(second->Modify_0, second->Modify_1.applied(byte_of(replies[10])))
            &&& trace.result == Some(Ok::<Output, Error<SpiError, PinError>>(Output::Unit))
            &&& trace.scale == scale
        }),
{
    let begin = call.begin::<SpiError, PinError>();
    lemma_call_begins::<SpiError, PinError>(call);
    lemma_modify_runs(begin, scale, replies);
    let written = OperationModel { writing_back: true, ..begin };
    let onward = written.proceed(scale, Seq::empty())->Next_0;
    let rest = replies.skip(8);
    assert(all_succeed(rest, 8)) by {
        assert forall|i: int| 0 <= i < 8 && i < rest.len() implies !(#[trigger] rest[i]).failed() by {
            assert(rest[i] == replies[i + 8]);
        }
    }
    lemma_modify_runs(onward, scale, rest);
    assert(rest[2] == replies[10]);
    assert(call.finish() is Nothing);
}

/// Every mode takes two read-modify-write steps: low power clears `HR` and
/// then sets `LPen`, normal clears `LPen` and then `HR`, high resolution
/// clears `LPen` and then sets `HR`.
pub proof fn lemma_set_operating_mode<SpiError, PinError>(
    mode: OperatingMode,
    scale: FullScaleSelection,
    replies: Seq<Reply<SpiError, PinError>>,
)
    requires
        replies.len() >= 16,
        all_succeed(replies, 16),
    ensures
        ({
            let trace = Call::SetOperatingMode(mode).begin::<SpiError, PinError>().run(
                scale,
                replies,
            );
            let first = byte_of(replies[2]);
            let second = byte_of(replies[10]);
            &&& trace.actions == match mode {
                OperatingMode::LowPower => modify_actions(Register::CTRL_REG4, first & !HR)
                    + modify_actions(Register::CTRL_REG1, second | LPen),
                OperatingMode::Normal => modify_actions(Register::CTRL_REG1, first & !LPen)
                    + modify_actions(Register::CTRL_REG4, second & !HR),
                OperatingMode::HighResolution => modify_actions(Register::CTRL_REG1, first & !LPen)
                    + modify_actions(Register::CTRL_REG4, second | HR),
            }
            &&& trace.result == Some(Ok::<Output, Error<SpiError, PinError>>(Output::Unit))
            &&& trace.scale == scale
        }),
{
    lemma_twice_modifying_call(Call::SetOperatingMode(mode), scale, replies);
    let first = byte_of(replies[2]);
    let second = byte_of(replies[10]);
    assert((first & !0u8) | 0x08u8 == first | 0x08u8) by (bit_vector);
    assert((second & !0u8) | 0x08u8 == second | 0x08u8) by (bit_vector);
    assert((first & !0x08u8) | 0u8 == first & !0x08u8) by (bit_vector);
    assert((second & !0x08u8) | 0u8 == second & !0x08u8) by (bit_vector);
}

/// Power-down reads the reference register, once, and no other rate does.
///
/// On a bus that works, setting the output data rate reads the rate
/// register and writes it back with the rate field replaced. If the rate is
/// power-down, one read of the reference register follows, and the call ends
/// after it; for every other rate the call ends with the write.
pub proof fn lemma_power_down_reads_reference<SpiError, PinError>(
    odr: OutputDataRate,
    scale: FullScaleSelection,
    replies: Seq<Reply<SpiError, PinError>>,
)
    requires
        replies.len() >= 12,
        all_succeed(replies, 12),
    ensures
        ({
            let trace = Call::SetOutputDataRate(odr).begin::<SpiError, PinError>().run(
                scale,
                replies,
            );
            let patch = Patch { clear: ODR_MASK, set: odr.code() << 4 };
            let rate = seq![
                Action::Select,
                Action::Send(0xA0u8),
                Action::Receive,
                Action::Deselect,
                Action::Select,
                Action::Send(0x20u8),
                Action::Send(patch.applied(byte_of(replies[2]))),
                Action::Deselect,
            ];
            let reference = seq![
                Action::Select,
                Action::Send(0xA6u8),
                Action::Receive,
                Action::Deselect,
            ];
            &&& trace.actions == if odr is PowerDown {
                rate + reference
            } else {
                rate
            }
            &&& trace.result == Some(Ok::<Output, Error<SpiError, PinError>>(Output::Unit))
            &&& trace.scale == scale
        }),
{
    let call = Call::SetOutputDataRate(odr);
    let begin = call.begin::<SpiError, PinError>();
    lemma_call_begins::<SpiError, PinError>(call);
    assert(0x80u8 | 0x20u8 == 0xA0u8) by (bit_vector);
    assert(0x80u8 | 0x26u8 == 0xA6u8) by (bit_vector);
    lemma_modify_runs(begin, scale, replies);
    if odr is PowerDown {
        let written = OperationModel { writing_back: true, ..begin };
        let reading = written.proceed(scale, Seq::empty())->Next_0;
        let rest = replies.skip(8);
        assert(all_succeed(rest, 4)) by {
            assert forall|i: int| 0 <= i < 4 && i < rest.len() implies !(#[trigger] rest[
                i
            ]).failed() by {
                assert(rest[i] == replies[i + 8]);
            }
        }
        lemma_read_runs(reading, scale, rest);
    }
}

/// Selecting a full-scale range on a bus that works: the range register is
/// read and written back with the range field replaced, and the handle then
/// holds the selected range.
pub proof fn lemma_set_scale<SpiError, PinError>(
    fs: FullScaleSelection,
    scale: FullScaleSelection,
    replies: Seq<Reply<SpiError, PinError>>,
)
    requires
        replies.len() >= 8,
        all_succeed(replies, 8),
    ensures
        ({
            let trace = Call::SetScale(fs).begin::<SpiError, PinError>().run(scale, replies);
            let patch = Patch { clear: FS_MASK, set: fs.code() << 4 };
            &&& trace.actions == seq![
                Action::Select,
                Action::Send(0xA3u8),
                Action::Receive,
                Action::Deselect,
                Action::Select,
                Action::Send(0x23u8),
                Action::Send(patch.applied(byte_of(replies[2]))),
                Action::Deselect,
            ]
            &&& trace.result == Some(Ok::<Output, Error<SpiError, PinError>>(Output::Unit))
            &&& trace.scale == fs
        }),
{
    let call = Call::SetScale(fs);
    lemma_call_begins::<SpiError, PinError>(call);
    assert(0x80u8 | 0x23u8 == 0xA3u8) by (bit_vector);
    lemma_modify_runs(call.begin::<SpiError, PinError>(), scale, replies);
}

/// A normalized reading on a bus that works: the six output bytes are read
/// in one burst from the X axis's low byte on, and the reading is scaled by
/// the range that the handle holds.
pub proof fn lemma_get_norm<SpiError, PinError>(
    scale: FullScaleSelection,
    replies: Seq<Reply<SpiError, PinError>>,
)
    requires
        replies.len() >= 9,
        all_succeed(replies, 9),
    ensures
        ({
            let trace = Call::GetNorm.begin::<SpiError, PinError>().run(scale, replies);
            let bytes = Seq::new(6, |i: int| byte_of(replies[2 + i]));
            &&& trace.actions == seq![Action::Select, Action::Send(0xE8u8)] + Seq::new(
                6,
                |i: int| Action::Receive,
            ) + seq![Action::Deselect]
            &&& trace.result == Some(
                Ok::<Output, Error<SpiError, PinError>>(
                    Output::Norm(normalized(axes_of(bytes), scale)),
                ),
            )
            &&& trace.scale == scale
        }),
{
    let call = Call::GetNorm;
    let begin = call.begin::<SpiError, PinError>();
    lemma_call_begins::<SpiError, PinError>(call);
    assert(0xC0u8 | 0x28u8 == 0xE8u8) by (bit_vector);
    assert(begin.exchange.remaining().len() == 9);
    let bytes = Seq::new(6, |i: int| byte_of(replies[2 + i]));
    assert(begin.exchange.gathered(replies) =~= bytes);
    lemma_transaction_succeeds(begin, scale, replies);
}

} // verus!
