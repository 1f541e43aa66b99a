//! A driver call as a sequence of register transactions.
//!
//! An [`Operation`] holds the script of a call, the transaction in flight and
//! the way the call's result is read from the last transaction's bytes.
use crate::bus::{Action, Reply};
use crate::decode::{
    as_signed, axes_of, normalize, normalized, raw_axes, signed, status, status_of, temperature,
    temperature_of, Axes, Normalized, Temperature,
};
use crate::error::Error;
use crate::exchange::{
    burst_command, read_command, write_command, Body, Exchange, ExchangeModel, Progress,
    ProgressModel,
};
use crate::reg::{DataStatus, FullScaleSelection, Register, DEVICE_ID};
use vstd::prelude::*;

verus! {

/// A change to some bits of a register: the bits of `clear` are cleared, then
/// the bits of `set` are set.
#[derive(Copy, Clone, Debug, PartialEq, Eq)]
pub struct Patch {
    /// The bits to clear.
    pub clear: u8,
    /// The bits to set.
    pub set: u8,
}

impl Patch {
    /// The register's new value, given its current one.
    pub open spec fn applied(self, value: u8) -> u8 {
        (value & !self.clear) | self.set
    }

    /// The register's new value, given its current one.
    #[verifier::when_used_as_spec(applied)]
    pub fn apply(self, value: u8) -> (patched: u8)
        ensures
            patched == self.applied(value),
    {
        (value & !self.clear) | self.set
    }
}

/// A patch changes the bits it names and no others: the bits of `set` are
/// set, the bits of `clear` that are not in `set` are cleared, and every
/// other bit keeps its value.
pub proof fn lemma_patch_bits(patch: Patch, value: u8)
    ensures
        patch.applied(value) & patch.set == patch.set,
        patch.applied(value) & (patch.clear & !patch.set) == 0,
        patch.applied(value) & !(patch.clear | patch.set) == value & !(patch.clear | patch.set),
{
    let clear = patch.clear;
    let set = patch.set;
    assert(((value & !clear) | set) & set == set) by (bit_vector);
    assert(((value & !clear) | set) & (clear & !set) == 0) by (bit_vector);
    assert(((value & !clear) | set) & !(clear | set) == value & !(clear | set)) by (bit_vector);
}

/// One step of a script.
#[derive(Copy, Clone, Debug, PartialEq, Eq)]
pub enum RegOp {
    /// Read one register.
    Read(Register),
    /// Read this many registers, from the given one on.
    Burst(Register, usize),
    /// Read one register, patch the value, write it back: two transactions.
    Modify(Register, Patch),
}

impl RegOp {
    /// The transaction that the step begins with.
    pub open spec fn opening<SpiError, PinError>(self) -> ExchangeModel<SpiError, PinError> {
        match self {
            RegOp::Read(register) => ExchangeModel::fresh(
                read_command(register.addr()),
                Body::Read(1),
            ),
            RegOp::Burst(register, count) => ExchangeModel::fresh(
                burst_command(register.addr()),
                Body::Read(count),
            ),
            RegOp::Modify(register, _) => ExchangeModel::fresh(
                read_command(register.addr()),
                Body::Read(1),
            ),
        }
    }

    /// The transaction that writes a modified value back.
    pub open spec fn write_back<SpiError, PinError>(
        register: Register,
        patch: Patch,
        current: u8,
    ) -> ExchangeModel<SpiError, PinError> {
        ExchangeModel::fresh(write_command(register.addr()), Body::Write(patch.applied(current)))
    }

    /// The number of bytes that the step hands on when it is done.
    pub open spec fn yields(self) -> nat {
        match self {
            RegOp::Read(_) => 1,
            RegOp::Burst(_, count) => count as nat,
            RegOp::Modify(_, _) => 0,
        }
    }

    /// Begins the step.
    pub fn open<SpiError, PinError>(self) -> (exchange: Exchange<SpiError, PinError>)
        ensures
            exchange@ == self.opening::<SpiError, PinError>(),
            exchange@.wf(),
    {
        match self {
            RegOp::Read(register) => Exchange::read_reg(register),
            RegOp::Burst(register, count) => Exchange::read_regs(register, count),
            RegOp::Modify(register, _) => Exchange::read_reg(register),
        }
    }
}

/// Read `reg`, apply `patch`, write the result back.
pub fn modify_reg(reg: Register, patch: Patch) -> (step: RegOp)
    ensures
        step == RegOp::Modify(reg, patch),
{
    RegOp::Modify(reg, patch)
}

/// Set the bits `bits` of `reg` and leave the others.
pub fn reg_set_bits(reg: Register, bits: u8) -> (step: RegOp)
    ensures
        step == RegOp::Modify(reg, Patch { clear: 0, set: bits }),
{
    modify_reg(reg, Patch { clear: 0, set: bits })
}

/// Clear the bits `bits` of `reg` and leave the others.
pub fn reg_reset_bits(reg: Register, bits: u8) -> (step: RegOp)
    ensures
        step == RegOp::Modify(reg, Patch { clear: bits, set: 0 }),
{
    modify_reg(reg, Patch { clear: bits, set: 0 })
}

/// Set the bits `bits` of `reg` if `set` holds, clear them if not.
pub fn reg_xset_bits(reg: Register, bits: u8, set: bool) -> (step: RegOp)
    ensures
        step == if set {
            RegOp::Modify(reg, Patch { clear: 0, set: bits })
        } else {
            RegOp::Modify(reg, Patch { clear: bits, set: 0 })
        },
{
    if set {
        reg_set_bits(reg, bits)
    } else {
        reg_reset_bits(reg, bits)
    }
}

/// What a driver call hands back.
#[derive(Copy, Clone, Debug, PartialEq, Eq)]
pub enum Output {
    /// Nothing: the call configured the device, or checked it.
    Unit,
    /// The byte of one register.
    Byte(u8),
    /// The raw acceleration, left-justified in sixteen bits.
    Raw(Axes),
    /// The acceleration in physical units.
    Norm(Normalized),
    /// The flags of the status register.
    Status(DataStatus),
    /// The temperature bytes: the high one as a signed number, then the low
    /// one.
    TemperatureRaw(i8, u8),
    /// The temperature bytes as they came: the high one, then the low one.
    TemperatureBytes(u8, u8),
    /// The temperature.
    Temperature(Temperature),
}

/// How the call's result is read from the bytes of its last transaction.
#[derive(Copy, Clone, Debug, PartialEq, Eq)]
pub enum Finish {
    /// The call hands back nothing.
    Nothing,
    /// The call hands back nothing, and the handle takes this range as the
    /// device's.
    Scale(FullScaleSelection),
    /// The byte must be the device's identity.
    Identity,
    /// The byte itself.
    Byte,
    /// Six bytes as three raw axes.
    Raw,
    /// Six bytes as three axes in physical units.
    Norm,
    /// The byte as status flags.
    Status,
    /// Two bytes as the signed high and the low temperature byte.
    TemperatureRaw,
    /// Two bytes as the high and the low temperature byte.
    TemperatureBytes,
    /// Two bytes as a temperature.
    TemperatureC,
}

impl Finish {
    /// The number of bytes that the result is read from.
    pub open spec fn takes(self) -> nat {
        match self {
            Finish::Nothing => 0,
            Finish::Scale(_) => 0,
            Finish::Identity => 1,
            Finish::Byte => 1,
            Finish::Raw => 6,
            Finish::Norm => 6,
            Finish::Status => 1,
            Finish::TemperatureRaw => 2,
            Finish::TemperatureBytes => 2,
            Finish::TemperatureC => 2,
        }
    }

    /// The call's result, given the bytes `data` of its last transaction and
    /// the full-scale range `scale` that the handle holds.
    ///
    /// The identity check succeeds on the device's identity byte alone; any
    /// other byte is an [`Error::InvalidWhoAmI`] that carries it.
    pub open spec fn concluded<SpiError, PinError>(
        self,
        scale: FullScaleSelection,
        data: Seq<u8>,
    ) -> Result<Output, Error<SpiError, PinError>> {
        match self {
            Finish::Nothing => Ok(Output::Unit),
            Finish::Scale(_) => Ok(Output::Unit),
            Finish::Identity => if data[0] == DEVICE_ID {
                Ok(Output::Unit)
            } else {
                Err(Error::InvalidWhoAmI(data[0]))
            },
            Finish::Byte => Ok(Output::Byte(data[0])),
            Finish::Raw => Ok(Output::Raw(axes_of(data))),
            Finish::Norm => Ok(Output::Norm(normalized(axes_of(data), scale))),
            Finish::Status => Ok(Output::Status(status_of(data[0]))),
            Finish::TemperatureRaw => Ok(Output::TemperatureRaw(signed(data[1]) as i8, data[0])),
            Finish::TemperatureBytes => Ok(Output::TemperatureBytes(data[1], data[0])),
            Finish::TemperatureC => Ok(
                Output::Temperature(temperature_of(signed(data[1]) as i8, data[0])),
            ),
        }
    }

    /// The range that the handle holds once the call has succeeded.
    pub open spec fn scale_after(self, scale: FullScaleSelection) -> FullScaleSelection {
        match self {
            Finish::Scale(selected) => selected,
            _ => scale,
        }
    }

    /// Reads the call's result from the bytes of its last transaction.
    pub(crate) fn conclude<SpiError, PinError>(
        self,
        scale: FullScaleSelection,
        data: &Vec<u8>,
    ) -> (result: Result<Output, Error<SpiError, PinError>>)
        requires
            data.len() >= self.takes(),
        ensures
            result == self.concluded::<SpiError, PinError>(scale, data@),
    {
        match self {
            Finish::Nothing => Ok(Output::Unit),
            Finish::Scale(_) => Ok(Output::Unit),
            Finish::Identity => {
                let device_id = data[0];
                if device_id != DEVICE_ID {
                    return Err(Error::InvalidWhoAmI(device_id));
                }
                Ok(Output::Unit)
            },
            Finish::Byte => Ok(Output::Byte(data[0])),
            Finish::Raw => Ok(Output::Raw(six(data))),
            Finish::Norm => Ok(Output::Norm(normalize(six(data), scale))),
            Finish::Status => Ok(Output::Status(status(data[0]))),
            Finish::TemperatureRaw => Ok(Output::TemperatureRaw(as_signed(data[1]), data[0])),
            Finish::TemperatureBytes => Ok(Output::TemperatureBytes(data[1], data[0])),
            Finish::TemperatureC => Ok(Output::Temperature(temperature(as_signed(data[1]), data[0]))),
        }
    }
}

/// The three axes of the first six bytes.
fn six(data: &Vec<u8>) -> (raw: Axes)
    requires
        data.len() >= 6,
    ensures
        raw == axes_of(data@),
{
    let bytes: [u8; 6] = [data[0], data[1], data[2], data[3], data[4], data[5]];
    raw_axes(&bytes)
}

/// A driver call in flight.
pub struct Operation<SpiError, PinError> {
    script: Vec<RegOp>,
    finish: Finish,
    index: usize,
    writing_back: bool,
    exchange: Exchange<SpiError, PinError>,
}

/// The mathematical content of an [`Operation`].
pub ghost struct OperationModel<SpiError, PinError> {
    /// The steps of the call, in order.
    pub script: Seq<RegOp>,
    /// How the result is read from the last step's bytes.
    pub finish: Finish,
    /// The step in progress.
    pub index: int,
    /// Whether the step in progress, a [`RegOp::Modify`], has read the
    /// register and is writing it back.
    pub writing_back: bool,
    /// The transaction in flight.
    pub exchange: ExchangeModel<SpiError, PinError>,
}

/// What resuming an [`Operation`] yields.
pub enum Step<SpiError, PinError> {
    /// The call goes on, suspended at its next action.
    Next(Operation<SpiError, PinError>),
    /// The call is over.
    Done(Result<Output, Error<SpiError, PinError>>),
}

/// The mathematical content of a [`Step`].
pub ghost enum StepModel<SpiError, PinError> {
    Next(OperationModel<SpiError, PinError>),
    Done(Result<Output, Error<SpiError, PinError>>),
}

impl<SpiError, PinError> View for Operation<SpiError, PinError> {
    type V = OperationModel<SpiError, PinError>;

    closed spec fn view(&self) -> OperationModel<SpiError, PinError> {
        OperationModel {
            script: self.script@,
            finish: self.finish,
            index: self.index as int,
            writing_back: self.writing_back,
            exchange: self.exchange@,
        }
    }
}

impl<SpiError, PinError> View for Step<SpiError, PinError> {
    type V = StepModel<SpiError, PinError>;

    open spec fn view(&self) -> StepModel<SpiError, PinError> {
        match *self {
            Step::Next(operation) => StepModel::Next(operation@),
            Step::Done(result) => StepModel::Done(result),
        }
    }
}

impl<SpiError, PinError> OperationModel<SpiError, PinError> {
    /// The call before its first action.
    pub open spec fn start(script: Seq<RegOp>, finish: Finish) -> Self {
        OperationModel {
            script,
            finish,
            index: 0,
            writing_back: false,
            exchange: script[0].opening(),
        }
    }

    /// The step in progress.
    pub open spec fn current(self) -> RegOp {
        self.script[self.index]
    }

    /// Whether the transaction in flight is the one that the step in progress
    /// calls for.
    pub open spec fn on_script(self) -> bool {
        if self.writing_back {
            &&& self.current() matches RegOp::Modify(register, _)
            &&& self.exchange.command == write_command(register.addr())
            &&& self.exchange.body is Write
        } else {
            let opening = self.current().opening::<SpiError, PinError>();
            &&& self.exchange.command == opening.command
            &&& self.exchange.body == opening.body
        }
    }

    /// What holds of every operation: it stands at a step of its script, the
    /// transaction in flight belongs to that step, and the last step hands on
    /// the bytes that the result is read from.
    pub open spec fn wf(self) -> bool {
        &&& 0 <= self.index < self.script.len()
        &&& self.exchange.wf()
        &&& self.on_script()
        &&& self.script.last().yields() >= self.finish.takes()
    }

    /// The action that the call is suspended at.
    pub open spec fn pending(self) -> Action {
        self.exchange.pending()
    }

    /// Whether chip-select is low: a transaction has driven it low and not
    /// yet high.
    pub open spec fn holds_select(self) -> bool {
        self.exchange.holds_select()
    }

    /// What follows when the transaction in flight has ended well with the
    /// bytes `data`. A [`RegOp::Modify`] that has only read goes on to write
    /// the patched byte back; otherwise the next step begins, or, after the
    /// last step, the result is read from the bytes.
    pub open spec fn proceed(self, scale: FullScaleSelection, data: Seq<u8>) -> StepModel<
        SpiError,
        PinError,
    > {
        match self.current() {
            RegOp::Modify(register, patch) if !self.writing_back => StepModel::Next(
                OperationModel {
                    writing_back: true,
                    exchange: RegOp::write_back(register, patch, data[0]),
                    ..self
                },
            ),
            _ => if self.index + 1 < self.script.len() {
                StepModel::Next(
                    OperationModel {
                        index: self.index + 1,
                        writing_back: false,
                        exchange: self.script[self.index + 1].opening(),
                        ..self
                    },
                )
            } else {
                StepModel::Done(self.finish.concluded(scale, data))
            },
        }
    }

    /// The operation after the action it was suspended at went as `reply`
    /// says. `scale` is the full-scale range that the handle holds.
    ///
    /// The transaction in flight takes the reply. If it goes on, so does the
    /// call. If it fails, the call fails with its error and no later step
    /// runs. If it ends well, the call proceeds with its bytes.
    pub open spec fn step(
        self,
        scale: FullScaleSelection,
        reply: Reply<SpiError, PinError>,
    ) -> StepModel<SpiError, PinError> {
        match self.exchange.step(reply) {
            ProgressModel::Next(exchange) => StepModel::Next(OperationModel { exchange, ..self }),
            ProgressModel::Done(Err(e)) => StepModel::Done(Err(e)),
            ProgressModel::Done(Ok(data)) => self.proceed(scale, data),
        }
    }

    /// The range that the handle holds after the step: the one that the call
    /// selects, once the call has succeeded, and the one it held before in
    /// every other case.
    pub open spec fn scale_after(
        self,
        scale: FullScaleSelection,
        reply: Reply<SpiError, PinError>,
    ) -> FullScaleSelection {
        match self.step(scale, reply) {
            StepModel::Done(Ok(_)) => self.finish.scale_after(scale),
            _ => scale,
        }
    }
}

impl<SpiError, PinError> StepModel<SpiError, PinError> {
    /// What holds of every step's outcome: an operation that goes on is well
    /// formed.
    pub open spec fn wf(self) -> bool {
        self matches StepModel::Next(next) ==> next.wf()
    }
}

impl<SpiError, PinError> Operation<SpiError, PinError> {
    #[verifier::type_invariant]
    spec fn inv(self) -> bool {
        self@.wf()
    }

    /// The call that runs `script` and reads its result as `finish` says.
    pub(crate) fn start(script: Vec<RegOp>, finish: Finish) -> (operation: Self)
        requires
            script.len() > 0,
            script@.last().yields() >= finish.takes(),
        ensures
            operation@ == OperationModel::<SpiError, PinError>::start(script@, finish),
            operation@.wf(),
    {
        let exchange = script[0].open();
        Operation { script, finish, index: 0, writing_back: false, exchange }
    }

    /// The action to perform next.
    pub fn pending(&self) -> (action: Action)
        ensures
            action == self@.pending(),
            self@.wf(),
    {
        proof {
            use_type_invariant(self);
        }
        self.exchange.pending()
    }

    /// Whether chip-select is low. A caller that gives the call up before it
    /// is over has to drive chip-select high if this holds.
    pub fn holds_select(&self) -> (low: bool)
        ensures
            low == self@.holds_select(),
    {
        self.exchange.holds_select()
    }

    /// The range that the handle is to hold once the call has succeeded, if
    /// the call selects one.
    pub(crate) fn selects(&self) -> (selected: Option<FullScaleSelection>)
        ensures
            self@.wf(),
            match selected {
                Some(scale) => self@.finish == Finish::Scale(scale),
                None => !(self@.finish is Scale),
            },
    {
        proof {
            use_type_invariant(self);
        }
        match self.finish {
            Finish::Scale(scale) => Some(scale),
            _ => None,
        }
    }

    /// Takes the reply to the pending action and moves on; `scale` is the
    /// full-scale range that the handle holds.
    pub(crate) fn advance(self, scale: FullScaleSelection, reply: Reply<SpiError, PinError>) -> (step:
        Step<SpiError, PinError>)
        ensures
            step@ == self@.step(scale, reply),
            self@.wf(),
            step@.wf(),
    {
        proof {
            use_type_invariant(&self);
        }
        let Operation { script, finish, index, writing_back, exchange } = self;
        assert(index < script.len());
        match exchange.resume(reply) {
            Progress::Next(exchange) => Step::Next(
                Operation { script, finish, index, writing_back, exchange },
            ),
            Progress::Done(Err(e)) => Step::Done(Err(e)),
            Progress::Done(Ok(data)) => {
                match script[index] {
                    RegOp::Modify(register, patch) if !writing_back => {
                        let exchange = Exchange::write_reg(register, patch.apply(data[0]));
                        Step::Next(Operation { script, finish, index, writing_back: true, exchange })
                    },
                    _ => {
                        if index + 1 < script.len() {
                            let exchange = script[index + 1].open();
                            Step::Next(
                                Operation {
                                    script,
                                    finish,
                                    index: index + 1,
                                    writing_back: false,
                                    exchange,
                                },
                            )
                        } else {
                            Step::Done(finish.conclude(scale, &data))
                        }
                    },
                }
            },
        }
    }
}

} // verus!
