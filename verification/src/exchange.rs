//! One register transaction: a command byte and its data, sent while
//! chip-select is held low.
//!
//! An [`Exchange`] is a transaction in flight. It is suspended at the bus
//! action it needs next, [`Exchange::pending`]; [`Exchange::resume`] takes the
//! reply to that action and yields the exchange at its next action, or the
//! transaction's result.
use crate::bus::{Action, Reply};
use crate::error::Error;
use crate::reg::Register;
use vstd::prelude::*;

verus! {

/// Bit 7 of a command byte: the transaction reads.
pub const READ: u8 = 0b1000_0000;

/// Bit 6 of a command byte: the address advances after each data byte.
pub const AUTO_INCREMENT: u8 = 0b0100_0000;

/// Bits 5 to 0 of a command byte: the register's address.
pub const ADDRESS: u8 = 0b0011_1111;

/// What follows the command byte.
#[derive(Copy, Clone, Debug, PartialEq, Eq)]
pub enum Body {
    /// One data byte, sent to the device.
    Write(u8),
    /// This many data bytes, received from the device.
    Read(usize),
}

/// Where a transaction stands: the bus action it is suspended at.
#[derive(Copy, Clone, Debug, PartialEq, Eq)]
pub enum Phase {
    /// Chip-select is to be driven low.
    Selecting,
    /// The command byte is to be sent.
    Commanding,
    /// The data byte is to be sent.
    Writing,
    /// A data byte is to be received.
    Reading,
    /// Chip-select is to be driven high, which ends the transaction.
    Releasing,
}

/// A transaction in flight.
pub struct Exchange<SpiError, PinError> {
    command: u8,
    body: Body,
    phase: Phase,
    received: Vec<u8>,
    failure: Option<Error<SpiError, PinError>>,
}

/// The mathematical content of an [`Exchange`].
pub ghost struct ExchangeModel<SpiError, PinError> {
    /// The command byte.
    pub command: u8,
    /// What follows the command byte.
    pub body: Body,
    /// The action the transaction is suspended at.
    pub phase: Phase,
    /// The data bytes received so far.
    pub received: Seq<u8>,
    /// The first failure, kept until chip-select has been released.
    pub failure: Option<Error<SpiError, PinError>>,
}

/// What [`Exchange::resume`] yields.
pub enum Progress<SpiError, PinError> {
    /// The transaction goes on, suspended at its next action.
    Next(Exchange<SpiError, PinError>),
    /// The transaction is over: the bytes it read, or the first error.
    Done(Result<Vec<u8>, Error<SpiError, PinError>>),
}

/// The mathematical content of a [`Progress`].
pub ghost enum ProgressModel<SpiError, PinError> {
    Next(ExchangeModel<SpiError, PinError>),
    Done(Result<Seq<u8>, Error<SpiError, PinError>>),
}

impl<SpiError, PinError> View for Exchange<SpiError, PinError> {
    type V = ExchangeModel<SpiError, PinError>;

    closed spec fn view(&self) -> ExchangeModel<SpiError, PinError> {
        ExchangeModel {
            command: self.command,
            body: self.body,
            phase: self.phase,
            received: self.received@,
            failure: self.failure,
        }
    }
}

impl<SpiError, PinError> View for Progress<SpiError, PinError> {
    type V = ProgressModel<SpiError, PinError>;

    open spec fn view(&self) -> ProgressModel<SpiError, PinError> {
        match *self {
            Progress::Next(exchange) => ProgressModel::Next(exchange@),
            Progress::Done(Ok(bytes)) => ProgressModel::Done(Ok(bytes@)),
            Progress::Done(Err(e)) => ProgressModel::Done(Err(e)),
        }
    }
}

/// The command byte of a single read of the register at `addr`.
pub open spec fn read_command(addr: u8) -> u8 {
    0x80u8 | addr
}

/// The command byte of a burst read that starts at `addr`.
pub open spec fn burst_command(addr: u8) -> u8 {
    0xC0u8 | addr
}

/// The command byte of a single write to the register at `addr`.
pub open spec fn write_command(addr: u8) -> u8 {
    addr
}

/// A command byte holds the address in its six low bits, the read flag in
/// bit 7 and the auto-increment flag in bit 6: a single read sets the first
/// flag, a burst read both, a write neither.
pub proof fn lemma_command_layout(addr: u8)
    requires
        addr <= 0x3F,
    ensures
        read_command(addr) & ADDRESS == addr,
        read_command(addr) & READ != 0,
        read_command(addr) & AUTO_INCREMENT == 0,
        burst_command(addr) & ADDRESS == addr,
        burst_command(addr) & READ != 0,
        burst_command(addr) & AUTO_INCREMENT != 0,
        write_command(addr) & ADDRESS == addr,
        write_command(addr) & READ == 0,
        write_command(addr) & AUTO_INCREMENT == 0,
{
    assert(addr <= 0x3F ==> (0x80u8 | addr) & 0x3F == addr && (0x80u8 | addr) & 0x80 != 0 && (0x80u8
        | addr) & 0x40 == 0) by (bit_vector);
    assert(addr <= 0x3F ==> (0xC0u8 | addr) & 0x3F == addr && (0xC0u8 | addr) & 0x80 != 0 && (0xC0u8
        | addr) & 0x40 != 0) by (bit_vector);
    assert(addr <= 0x3F ==> addr & 0x3F == addr && addr & 0x80 == 0 && addr & 0x40 == 0)
        by (bit_vector);
}

impl Body {
    /// The number of data bytes that the transaction receives.
    pub open spec fn reads(self) -> nat {
        match self {
            Body::Write(_) => 0,
            Body::Read(count) => count as nat,
        }
    }

    /// The data actions, in order.
    pub open spec fn actions(self) -> Seq<Action> {
        match self {
            Body::Write(data) => seq![Action::Send(data)],
            Body::Read(count) => Seq::new(count as nat, |i: int| Action::Receive),
        }
    }
}

impl<SpiError, PinError> ExchangeModel<SpiError, PinError> {
    /// A transaction that has not begun: chip-select is still to be driven
    /// low.
    pub open spec fn fresh(command: u8, body: Body) -> Self {
        ExchangeModel {
            command,
            body,
            phase: Phase::Selecting,
            received: Seq::empty(),
            failure: None,
        }
    }

    /// What holds of every exchange: the bytes received agree with the phase
    /// and the body, and a failure is kept only while chip-select awaits its
    /// release.
    pub open spec fn wf(self) -> bool {
        &&& self.received.len() <= self.body.reads()
        &&& self.phase is Reading ==> self.received.len() < self.body.reads()
        &&& self.phase is Writing ==> self.body is Write
        &&& (self.phase is Selecting || self.phase is Commanding) ==> self.received.len() == 0
        &&& (self.phase is Releasing && self.failure is None) ==> self.received.len()
            == self.body.reads()
        &&& self.failure is Some ==> self.phase is Releasing
    }

    /// The action that the exchange is suspended at.
    pub open spec fn pending(self) -> Action {
        match self.phase {
            Phase::Selecting => Action::Select,
            Phase::Commanding => Action::Send(self.command),
            Phase::Writing => Action::Send(
                match self.body {
                    Body::Write(data) => data,
                    Body::Read(_) => 0u8,
                },
            ),
            Phase::Reading => Action::Receive,
            Phase::Releasing => Action::Deselect,
        }
    }

    /// Whether chip-select is low: the transaction has driven it low and not
    /// yet high.
    pub open spec fn holds_select(self) -> bool {
        !(self.phase is Selecting)
    }

    /// The phase that follows the command byte.
    pub open spec fn after_command(self) -> Phase {
        match self.body {
            Body::Write(_) => Phase::Writing,
            Body::Read(count) => if count == 0 {
                Phase::Releasing
            } else {
                Phase::Reading
            },
        }
    }

    /// The exchange after the action it was suspended at went as `reply` says.
    ///
    /// A failure to drive chip-select low ends the transaction at once. A
    /// failed transfer is kept and chip-select is released next; the
    /// transaction then ends with that failure, however the release went.
    /// With no failure before it, a failed release is the transaction's error.
    pub open spec fn step(self, reply: Reply<SpiError, PinError>) -> ProgressModel<
        SpiError,
        PinError,
    > {
        match reply.outcome() {
            Ok(byte) => match self.phase {
                Phase::Selecting => ProgressModel::Next(
                    ExchangeModel { phase: Phase::Commanding, ..self },
                ),
                Phase::Commanding => ProgressModel::Next(
                    ExchangeModel { phase: self.after_command(), ..self },
                ),
                Phase::Writing => ProgressModel::Next(
                    ExchangeModel { phase: Phase::Releasing, ..self },
                ),
                Phase::Reading => ProgressModel::Next(
                    ExchangeModel {
                        phase: if self.received.len() + 1 >= self.body.reads() {
                            Phase::Releasing
                        } else {
                            Phase::Reading
                        },
                        received: self.received.push(byte),
                        ..self
                    },
                ),
                Phase::Releasing => ProgressModel::Done(
                    match self.failure {
                        Some(first) => Err(first),
                        None => Ok(self.received),
                    },
                ),
            },
            Err(e) => match self.phase {
                Phase::Selecting => ProgressModel::Done(Err(e)),
                Phase::Releasing => ProgressModel::Done(
                    match self.failure {
                        Some(first) => Err(first),
                        None => Err(e),
                    },
                ),
                _ => ProgressModel::Next(
                    ExchangeModel { phase: Phase::Releasing, failure: Some(e), ..self },
                ),
            },
        }
    }

    /// The actions of the whole transaction when nothing fails: chip-select
    /// low, the command byte, the data, chip-select high.
    pub open spec fn plan(self) -> Seq<Action> {
        seq![Action::Select, Action::Send(self.command)] + self.body.actions()
            + seq![Action::Deselect]
    }
}

impl<SpiError, PinError> ProgressModel<SpiError, PinError> {
    /// What holds of every step's outcome: an exchange that goes on is well
    /// formed.
    pub open spec fn wf(self) -> bool {
        self matches ProgressModel::Next(next) ==> next.wf()
    }
}

impl<SpiError, PinError> Exchange<SpiError, PinError> {
    #[verifier::type_invariant]
    spec fn inv(self) -> bool {
        self@.wf()
    }

    fn fresh(command: u8, body: Body) -> (exchange: Self)
        ensures
            exchange@ == ExchangeModel::<SpiError, PinError>::fresh(command, body),
    {
        Exchange { command, body, phase: Phase::Selecting, received: Vec::new(), failure: None }
    }

    /// The transaction that reads one register: chip-select low, the command
    /// byte `0x80 | addr`, one byte received, chip-select high.
    pub fn read_reg(register: Register) -> (exchange: Self)
        ensures
            exchange@ == ExchangeModel::<SpiError, PinError>::fresh(
                read_command(register.addr()),
                Body::Read(1),
            ),
            exchange@.wf(),
            exchange@.plan() == seq![
                Action::Select,
                Action::Send(0x80u8 | register.addr()),
                Action::Receive,
                Action::Deselect,
            ],
    {
        let request: u8 = 0b1000_0000 | register.addr();  // set the read bit
        Self::fresh(request, Body::Read(1))
    }

    /// The transaction that reads `count` registers from `register` on:
    /// chip-select low, the command byte `0xC0 | addr`, `count` bytes
    /// received, chip-select high.
    pub fn read_regs(register: Register, count: usize) -> (exchange: Self)
        ensures
            exchange@ == ExchangeModel::<SpiError, PinError>::fresh(
                burst_command(register.addr()),
                Body::Read(count),
            ),
            exchange@.wf(),
            exchange@.plan() == seq![Action::Select, Action::Send(0xC0u8 | register.addr())]
                + Seq::new(count as nat, |i: int| Action::Receive) + seq![Action::Deselect],
    {
        let request: u8 = 0b1100_0000 | register.addr();  // set the read bit and register increment bit
        Self::fresh(request, Body::Read(count))
    }

    /// The transaction that writes one register: chip-select low, the command
    /// byte `addr`, the data byte, chip-select high.
    pub fn write_reg(register: Register, data: u8) -> (exchange: Self)
        ensures
            exchange@ == ExchangeModel::<SpiError, PinError>::fresh(
                write_command(register.addr()),
                Body::Write(data),
            ),
            exchange@.wf(),
            exchange@.plan() == seq![
                Action::Select,
                Action::Send(register.addr()),
                Action::Send(data),
                Action::Deselect,
            ],
    {
        Self::fresh(register.addr(), Body::Write(data))
    }

    /// The action to perform next.
    pub fn pending(&self) -> (action: Action)
        ensures
            action == self@.pending(),
            self@.wf(),
    {
        proof {
            use_type_invariant(self);
        }
        match self.phase {
            Phase::Selecting => Action::Select,
            Phase::Commanding => Action::Send(self.command),
            Phase::Writing => match self.body {
                Body::Write(data) => Action::Send(data),
                Body::Read(_) => Action::Send(0),
            },
            Phase::Reading => Action::Receive,
            Phase::Releasing => Action::Deselect,
        }
    }

    /// Whether chip-select is low. A caller that gives the transaction up
    /// before it is over has to drive chip-select high if this holds.
    pub fn holds_select(&self) -> (low: bool)
        ensures
            low == self@.holds_select(),
    {
        match self.phase {
            Phase::Selecting => false,
            _ => true,
        }
    }

    /// Takes the reply to the pending action and moves on.
    pub fn resume(self, reply: Reply<SpiError, PinError>) -> (progress: Progress<
        SpiError,
        PinError,
    >)
        ensures
            progress@ == self@.step(reply),
            self@.wf(),
            progress@.wf(),
    {
        proof {
            use_type_invariant(&self);
        }
        match self.phase {
            Phase::Selecting => self.chip_select(reply),
            Phase::Releasing => self.chip_deselect(reply),
            _ => match self.body {
                Body::Write(_) => self.write_then_write(reply),
                Body::Read(_) => self.write_then_read_into(reply),
            },
        }
    }

    /// Chip-select was to go low: on success the command byte is next, and a
    /// failure ends the transaction.
    fn chip_select(self, reply: Reply<SpiError, PinError>) -> (progress: Progress<
        SpiError,
        PinError,
    >)
        requires
            self@.phase is Selecting,
        ensures
            progress@ == self@.step(reply),
            progress@.wf(),
    {
        proof {
            use_type_invariant(&self);
        }
        let Exchange { command, body, phase: _, received, failure } = self;
        match reply.into_result() {
            Ok(_) => Progress::Next(
                Exchange { command, body, phase: Phase::Commanding, received, failure },
            ),
            Err(e) => Progress::Done(Err(e)),
        }
    }

    /// Chip-select was to go high: the transaction ends with the first
    /// failure if there was one, else with the failure of this very step if
    /// it failed, else with the bytes received.
    fn chip_deselect(self, reply: Reply<SpiError, PinError>) -> (progress: Progress<
        SpiError,
        PinError,
    >)
        requires
            self@.phase is Releasing,
        ensures
            progress@ == self@.step(reply),
            progress@.wf(),
    {
        proof {
            use_type_invariant(&self);
        }
        let Exchange { command: _, body: _, phase: _, received, failure } = self;
        match failure {
            Some(first) => Progress::Done(Err(first)),
            None => match reply.into_result() {
                Ok(_) => Progress::Done(Ok(received)),
                Err(e) => Progress::Done(Err(e)),
            },
        }
    }

    /// The transfers of a write: the command byte, then the data byte. A
    /// failure of either leaves only the release of chip-select to do.
    fn write_then_write(self, reply: Reply<SpiError, PinError>) -> (progress: Progress<
        SpiError,
        PinError,
    >)
        requires
            self@.phase is Commanding || self@.phase is Writing,
            self@.body is Write,
        ensures
            progress@ == self@.step(reply),
            progress@.wf(),
    {
        proof {
            use_type_invariant(&self);
        }
        let Exchange { command, body, phase, received, failure } = self;
        match reply.into_result() {
            Ok(_) => {
                let next = match phase {
                    Phase::Commanding => Phase::Writing,
                    _ => Phase::Releasing,
                };
                Progress::Next(Exchange { command, body, phase: next, received, failure })
            },
            Err(e) => Progress::Next(
                Exchange { command, body, phase: Phase::Releasing, received, failure: Some(e) },
            ),
        }
    }

    /// The transfers of a read: the command byte, then one byte after the
    /// other into the buffer until all have come. A failure of any leaves
    /// only the release of chip-select to do.
    fn write_then_read_into(self, reply: Reply<SpiError, PinError>) -> (progress: Progress<
        SpiError,
        PinError,
    >)
        requires
            self@.phase is Commanding || self@.phase is Reading,
            self@.body is Read,
        ensures
            progress@ == self@.step(reply),
            progress@.wf(),
    {
        proof {
            use_type_invariant(&self);
        }
        let Exchange { command, body, phase, mut received, failure } = self;
        let count = match body {
            Body::Read(count) => count,
            Body::Write(_) => 0,
        };
        match reply.into_result() {
            Ok(byte) => {
                match phase {
                    Phase::Reading => {
                        received.push(byte);
                    },
                    _ => {},
                }
                let next = if received.len() >= count {
                    Phase::Releasing
                } else {
                    Phase::Reading
                };
                Progress::Next(Exchange { command, body, phase: next, received, failure })
            },
            Err(e) => Progress::Next(
                Exchange { command, body, phase: Phase::Releasing, received, failure: Some(e) },
            ),
        }
    }
}

} // verus!
