//! Driver calls carried out on a device that keeps what is written to it.
//!
//! Here the two ends meet: what a call writes is in the device afterwards,
//! and what a call reads is what the device holds.
use crate::calls::{lemma_scale_field, lemma_threshold_field, Call};
use crate::decode::{axes_of, normalized};
use crate::discipline::lemma_call_begins;
use crate::echo::{converse, lemma_echo_burst, lemma_echo_read, lemma_echo_write, window, Echo};
use crate::error::Error;
use crate::exchange::ProgressModel;
use crate::framing::{lemma_step_consumes, lemma_step_shape};
use crate::operation::{OperationModel, Output, StepModel};
use crate::reg::{FullScaleSelection, Register, FS_MASK};
use vstd::prelude::*;

verus! {

/// How a call on the device ends: the call's result, the full-scale range
/// that the handle holds then, and the device as it is then.
pub ghost struct Outcome<SpiError, PinError> {
    pub result: Result<Output, Error<SpiError, PinError>>,
    pub scale: FullScaleSelection,
    pub device: Echo,
}

/// The call carried out on the device by a handle that holds the range
/// `scale`: each action goes to the device and its reply back to the call,
/// until the call is over.
pub open spec fn carry_out<SpiError, PinError>(
    operation: OperationModel<SpiError, PinError>,
    scale: FullScaleSelection,
    device: Echo,
) -> Outcome<SpiError, PinError>
    decreases
            operation.script.len() - operation.index,
            (if operation.writing_back {
                0nat
            } else {
                1nat
            }),
            operation.exchange.remaining().len(),
    when operation.wf() && operation.exchange.failure is None
{
    let reaction = device.react::<SpiError, PinError>(operation.pending());
    proof {
        lemma_step_consumes(operation.exchange, reaction.1);
        lemma_step_shape(operation.exchange, reaction.1);
    }
    match operation.step(scale, reaction.1) {
        StepModel::Next(next) => carry_out(next, scale, reaction.0),
        StepModel::Done(result) => Outcome {
            result,
            scale: operation.scale_after(scale, reaction.1),
            device: reaction.0,
        },
    }
}

/// A call on the device is its transaction in flight on the device, and then
/// what the call proceeds with, on the device as the transaction left it.
pub proof fn lemma_carry_out_composes<SpiError, PinError>(
    operation: OperationModel<SpiError, PinError>,
    scale: FullScaleSelection,
    device: Echo,
)
    requires
        operation.wf(),
        operation.exchange.failure is None,
    ensures
        ({
            let inner = converse(operation.exchange, device);
            let outer = carry_out(operation, scale, device);
            match inner.0 {
                Err(e) => outer == (Outcome { result: Err(e), scale, device: inner.1 }),
                Ok(data) => match operation.proceed(scale, data) {
                    StepModel::Done(result) => outer == (Outcome {
                        result,
                        scale: if result is Ok {
                            operation.finish.scale_after(scale)
                        } else {
                            scale
                        },
                        device: inner.1,
                    }),
                    StepModel::Next(next) => {
                        &&& next.wf()
                        &&& next.exchange.failure is None
                        &&& outer == carry_out(next, scale, inner.1)
                    },
                },
            }
        }),
    decreases operation.exchange.remaining().len(),
{
    let reaction = device.react::<SpiError, PinError>(operation.pending());
    lemma_step_consumes(operation.exchange, reaction.1);
    lemma_step_shape(operation.exchange, reaction.1);
    match operation.exchange.step(reaction.1) {
        ProgressModel::Next(exchange) => {
            let onward = OperationModel { exchange, ..operation };
            lemma_carry_out_composes(onward, scale, reaction.0);
            match converse(exchange, reaction.0).0 {
                Ok(data) => {
                    assert(onward.proceed(scale, data) == operation.proceed(scale, data));
                },
                Err(_) => {},
            }
        },
        ProgressModel::Done(_) => {},
    }
}

/// A call that modifies one register, on the device: the call succeeds, and
/// the register holds its former byte with the call's patch applied; no
/// other register changes.
pub proof fn lemma_modifying_call_on_echo<SpiError, PinError>(
    call: Call,
    scale: FullScaleSelection,
    device: Echo,
)
    requires
        call.script().len() == 1,
        call.script()[0] is Modify,
    ensures
        ({
            let outcome = carry_out(call.begin::<SpiError, PinError>(), scale, device);
            let register = call.script()[0]->Modify_0;
            let patch = call.script()[0]->Modify_1;
            &&& outcome.result == Ok::<Output, Error<SpiError, PinError>>(Output::Unit)
            &&& outcome.scale == call.finish().scale_after(scale)
            &&& outcome.device.registers == device.registers.insert(
                register.addr(),
                patch.applied(device.registers[register.addr()]),
            )
        }),
{
    let begin = call.begin::<SpiError, PinError>();
    let register = call.script()[0]->Modify_0;
    lemma_call_begins::<SpiError, PinError>(call);
    lemma_echo_read::<SpiError, PinError>(device, register);
    lemma_carry_out_composes(begin, scale, device);
    let current = device.registers[register.addr()];
    let read = converse(begin.exchange, device);
    let writing = begin.proceed(scale, seq![current])->Next_0;
    lemma_echo_write::<SpiError, PinError>(
        read.1,
        register,
        call.script()[0]->Modify_1.applied(current),
    );
    lemma_carry_out_composes(writing, scale, read.1);
    assert(call.finish() is Nothing || call.finish() is Scale);
}

/// The click threshold on the device: the call succeeds, the low seven bits
/// of the threshold register hold the threshold cut to seven bits, and bit 7
/// of the register is as it was.
pub proof fn lemma_click_threshold_on_echo<SpiError, PinError>(
    ths: u8,
    scale: FullScaleSelection,
    device: Echo,
)
    ensures
        ({
            let outcome = carry_out(
                Call::SetClickThs(ths).begin::<SpiError, PinError>(),
                scale,
                device,
            );
            let before = device.registers[Register::CLICK_THS.addr()];
            &&& outcome.result == Ok::<Output, Error<SpiError, PinError>>(Output::Unit)
            &&& outcome.scale == scale
            &&& outcome.device.registers == device.registers.insert(
                Register::CLICK_THS.addr(),
                (before & 0x80) | (ths & 0x7F),
            )
        }),
{
    lemma_modifying_call_on_echo::<SpiError, PinError>(Call::SetClickThs(ths), scale, device);
    lemma_threshold_field(ths, device.registers[Register::CLICK_THS.addr()]);
}

/// The handle's range is the device's: after a range is selected on the
/// device, the range field of the device's register holds the code of the
/// range that the handle holds, and the other bits of the register are as
/// they were.
pub proof fn lemma_scale_is_the_devices<SpiError, PinError>(
    fs: FullScaleSelection,
    scale: FullScaleSelection,
    device: Echo,
)
    ensures
        ({
            let outcome = carry_out(Call::SetScale(fs).begin::<SpiError, PinError>(), scale, device);
            let before = device.registers[Register::CTRL_REG4.addr()];
            let after = outcome.device.registers[Register::CTRL_REG4.addr()];
            &&& outcome.result == Ok::<Output, Error<SpiError, PinError>>(Output::Unit)
            &&& outcome.scale == fs
            &&& (after & FS_MASK) >> 4 == outcome.scale.code()
            &&& after & !FS_MASK == before & !FS_MASK
        }),
{
    lemma_modifying_call_on_echo::<SpiError, PinError>(Call::SetScale(fs), scale, device);
    lemma_scale_field(fs, device.registers[Register::CTRL_REG4.addr()]);
}

/// Readings are scaled by the range that was selected: after a range is
/// selected on the device, a normalized reading is the device's six output
/// bytes, decoded and scaled by that range.
pub proof fn lemma_norm_follows_scale<SpiError, PinError>(
    fs: FullScaleSelection,
    scale: FullScaleSelection,
    device: Echo,
)
    ensures
        ({
            let selected = carry_out(Call::SetScale(fs).begin::<SpiError, PinError>(), scale, device);
            let read = carry_out(
                Call::GetNorm.begin::<SpiError, PinError>(),
                selected.scale,
                selected.device,
            );
            let bytes = window(selected.device.registers, Register::OUT_X_L.addr(), 6);
            &&& read.result == Ok::<Output, Error<SpiError, PinError>>(
                Output::Norm(normalized(axes_of(bytes), fs)),
            )
            &&& read.scale == fs
            &&& read.device.registers == selected.device.registers
        }),
{
    lemma_scale_is_the_devices::<SpiError, PinError>(fs, scale, device);
    let selected = carry_out(Call::SetScale(fs).begin::<SpiError, PinError>(), scale, device);
    let call = Call::GetNorm;
    lemma_call_begins::<SpiError, PinError>(call);
    lemma_echo_burst::<SpiError, PinError>(selected.device, Register::OUT_X_L, 6);
    lemma_carry_out_composes(call.begin::<SpiError, PinError>(), selected.scale, selected.device);
}

} // verus!
