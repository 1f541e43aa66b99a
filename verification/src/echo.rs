//! A device that keeps what is written to it, and a transaction's
//! conversation with it.
//!
//! The device stands for the far end of the bus as the protocol describes it:
//! the first byte after chip-select goes low is a command, a write command is
//! followed by the byte to store, a read command by the bytes of the
//! registers from the addressed one on.
use crate::bus::{Action, Reply};
use crate::error::Error;
use crate::exchange::{
    burst_command, lemma_command_layout, read_command, write_command, Body, ExchangeModel,
    ProgressModel,
    ADDRESS, AUTO_INCREMENT, READ,
};
use crate::framing::lemma_step_consumes;
use crate::reg::Register;
use vstd::prelude::*;

verus! {

/// What the device expects next.
pub ghost enum Listening {
    /// Nothing: chip-select is high.
    Idle,
    /// The command byte.
    Command,
    /// To send the byte of the addressed register.
    Reading,
    /// The byte to store in the addressed register.
    Writing,
}

/// A device that keeps what is written to it.
pub ghost struct Echo {
    /// The byte of the register at each address.
    pub registers: Map<u8, u8>,
    /// What the device expects next.
    pub listening: Listening,
    /// The address that the next data byte belongs to.
    pub cursor: u8,
    /// Whether the address advances after each data byte.
    pub advancing: bool,
}

impl Echo {
    /// The address that the data byte after this one belongs to.
    pub open spec fn next_cursor(self) -> u8 {
        if self.advancing {
            ((self.cursor + 1) % 64) as u8
        } else {
            self.cursor
        }
    }

    /// The device after `action`, and its reply. The device never fails.
    pub open spec fn react<SpiError, PinError>(self, action: Action) -> (
        Echo,
        Reply<SpiError, PinError>,
    ) {
        match action {
            Action::Select => (Echo { listening: Listening::Command, ..self }, Reply::Done),
            Action::Deselect => (Echo { listening: Listening::Idle, ..self }, Reply::Done),
            Action::Send(byte) => match self.listening {
                Listening::Command => (
                    Echo {
                        listening: if byte & READ != 0 {
                            Listening::Reading
                        } else {
                            Listening::Writing
                        },
                        cursor: byte & ADDRESS,
                        advancing: byte & AUTO_INCREMENT != 0,
                        ..self
                    },
                    Reply::Done,
                ),
                Listening::Writing => (
                    Echo {
                        registers: self.registers.insert(self.cursor, byte),
                        cursor: self.next_cursor(),
                        ..self
                    },
                    Reply::Done,
                ),
                _ => (self, Reply::Done),
            },
            Action::Receive => match self.listening {
                Listening::Reading => (
                    Echo { cursor: self.next_cursor(), ..self },
                    Reply::Byte(self.registers[self.cursor]),
                ),
                _ => (self, Reply::Byte(0)),
            },
        }
    }
}

/// The transaction carried out on the device: each action goes to the device
/// and its reply back to the transaction, until the transaction is over.
/// The result is the transaction's, with the device as it is then.
pub open spec fn converse<SpiError, PinError>(
    exchange: ExchangeModel<SpiError, PinError>,
    device: Echo,
) -> (Result<Seq<u8>, Error<SpiError, PinError>>, Echo)
    decreases exchange.remaining().len(),
    when exchange.wf() && exchange.failure is None
{
    let reaction = device.react::<SpiError, PinError>(exchange.pending());
    proof {
        lemma_step_consumes(exchange, reaction.1);
    }
    match exchange.step(reaction.1) {
        ProgressModel::Next(next) => converse(next, reaction.0),
        ProgressModel::Done(result) => (result, reaction.0),
    }
}

/// A write on the device: the transaction succeeds, and the register holds
/// the byte written; no other register changes.
pub proof fn lemma_echo_write<SpiError, PinError>(device: Echo, register: Register, value: u8)
    ensures
        ({
            let write = ExchangeModel::<SpiError, PinError>::fresh(
                write_command(register.addr()),
                Body::Write(value),
            );
            let written = converse(write, device);
            &&& written.0 == Ok::<Seq<u8>, Error<SpiError, PinError>>(Seq::empty())
            &&& written.1.registers == device.registers.insert(register.addr(), value)
        }),
{
    let addr = register.addr();
    lemma_command_layout(addr);
    reveal_with_fuel(converse, 5);
}

/// A read on the device: the transaction hands back the register's byte, and
/// no register changes.
pub proof fn lemma_echo_read<SpiError, PinError>(device: Echo, register: Register)
    ensures
        ({
            let read = ExchangeModel::<SpiError, PinError>::fresh(
                read_command(register.addr()),
                Body::Read(1),
            );
            let got = converse(read, device);
            &&& got.0 == Ok::<Seq<u8>, Error<SpiError, PinError>>(
                seq![device.registers[register.addr()]],
            )
            &&& got.1.registers == device.registers
        }),
{
    let addr = register.addr();
    lemma_command_layout(addr);
    reveal_with_fuel(converse, 5);
    let read = ExchangeModel::<SpiError, PinError>::fresh(read_command(addr), Body::Read(1));
    let got = converse(read, device);
    assert(got.0->Ok_0 =~= seq![device.registers[addr]]);
}

/// What is written to a register is what a read of it hands back.
///
/// On a device that keeps what is written to it, the transaction that writes
/// `value` to `register` succeeds, and the transaction that reads `register`
/// right after it hands back `value`.
pub proof fn lemma_write_then_read<SpiError, PinError>(
    device: Echo,
    register: Register,
    value: u8,
)
    ensures
        ({
            let write = ExchangeModel::<SpiError, PinError>::fresh(
                write_command(register.addr()),
                Body::Write(value),
            );
            let read = ExchangeModel::<SpiError, PinError>::fresh(
                read_command(register.addr()),
                Body::Read(1),
            );
            let written = converse(write, device);
            let got = converse(read, written.1);
            &&& written.0 == Ok::<Seq<u8>, Error<SpiError, PinError>>(Seq::empty())
            &&& written.1.registers == device.registers.insert(register.addr(), value)
            &&& got.0 == Ok::<Seq<u8>, Error<SpiError, PinError>>(seq![value])
            &&& got.1.registers == written.1.registers
        }),
{
    lemma_echo_write::<SpiError, PinError>(device, register, value);
    let write = ExchangeModel::<SpiError, PinError>::fresh(
        write_command(register.addr()),
        Body::Write(value),
    );
    lemma_echo_read::<SpiError, PinError>(converse(write, device).1, register);
}

/// The registers from `start` on, as many as `count`, wrapping round after
/// the last address.
pub open spec fn window(registers: Map<u8, u8>, start: u8, count: nat) -> Seq<u8> {
    Seq::new(count, |i: int| registers[((start + i) % 64) as u8])
}

/// The rest of a burst read on the device: the transaction hands back the
/// bytes it has and then those of the registers from the device's cursor on.
proof fn lemma_echo_receives<SpiError, PinError>(
    exchange: ExchangeModel<SpiError, PinError>,
    device: Echo,
)
    requires
        exchange.wf(),
        exchange.failure is None,
        exchange.phase is Reading || exchange.phase is Releasing,
        exchange.body is Read,
        device.listening is Reading,
        device.advancing,
        device.cursor < 64,
    ensures
        converse(exchange, device).0 == Ok::<Seq<u8>, Error<SpiError, PinError>>(
            exchange.received + window(device.registers, device.cursor, exchange.missing()),
        ),
        converse(exchange, device).1.registers == device.registers,
    decreases exchange.missing(),
{
    let reaction = device.react::<SpiError, PinError>(exchange.pending());
    if exchange.phase is Reading {
        let next = exchange.step(reaction.1)->Next_0;
        lemma_echo_receives(next, reaction.0);
        let byte = device.registers[device.cursor];
        let after = window(reaction.0.registers, reaction.0.cursor, next.missing());
        let all = window(device.registers, device.cursor, exchange.missing());
        assert(all[0] == byte);
        assert forall|i: int| 0 <= i < after.len() implies after[i] == all[i + 1] by {
            assert((((device.cursor + 1) % 64) + i) % 64 == (device.cursor + (i + 1)) % 64);
        }
        assert(exchange.received.push(byte) + after =~= exchange.received + all);
    } else {
        assert(exchange.received + window(device.registers, device.cursor, 0) =~= exchange.received);
    }
}

/// A burst read on the device: the transaction hands back the bytes of the
/// registers from the addressed one on, in order, and no register changes.
pub proof fn lemma_echo_burst<SpiError, PinError>(device: Echo, register: Register, count: usize)
    ensures
        ({
            let burst = ExchangeModel::<SpiError, PinError>::fresh(
                burst_command(register.addr()),
                Body::Read(count),
            );
            let got = converse(burst, device);
            &&& got.0 == Ok::<Seq<u8>, Error<SpiError, PinError>>(
                window(device.registers, register.addr(), count as nat),
            )
            &&& got.1.registers == device.registers
        }),
{
    let addr = register.addr();
    lemma_command_layout(addr);
    let burst = ExchangeModel::<SpiError, PinError>::fresh(burst_command(addr), Body::Read(count));
    reveal_with_fuel(converse, 3);
    let selected = device.react::<SpiError, PinError>(Action::Select);
    let commanding = burst.step(selected.1)->Next_0;
    let commanded = selected.0.react::<SpiError, PinError>(commanding.pending());
    let reading = commanding.step(commanded.1)->Next_0;
    assert(converse(burst, device) == converse(reading, commanded.0));
    lemma_echo_receives(reading, commanded.0);
    assert(Seq::<u8>::empty() + window(device.registers, addr, count as nat) =~= window(
        device.registers,
        addr,
        count as nat,
    ));
}

} // verus!
