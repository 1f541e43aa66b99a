//! What the driver asks of the bus, and what the bus answers.
use crate::error::Error;
use vstd::prelude::*;

verus! {

/// One thing for the caller to do on the bus.
#[derive(Copy, Clone, Debug, PartialEq, Eq)]
pub enum Action {
    /// Drive chip-select low.
    Select,
    /// Drive chip-select high.
    Deselect,
    /// Transmit this byte.
    Send(u8),
    /// Receive one byte.
    Receive,
}

/// How an [`Action`] went.
#[derive(Debug)]
pub enum Reply<SpiError, PinError> {
    /// The pin was driven, or the byte was sent.
    Done,
    /// This byte was received.
    Byte(u8),
    /// The transfer failed.
    SpiFailed(SpiError),
    /// The pin could not be driven.
    PinFailed(PinError),
}

impl<SpiError, PinError> Reply<SpiError, PinError> {
    /// The reply as a result: the byte that came in, or the driver's error for
    /// the failure. Where nothing was received the byte is `0`, which is what
    /// an untouched receive buffer holds.
    pub open spec fn outcome(self) -> Result<u8, Error<SpiError, PinError>> {
        match self {
            Reply::Done => Ok(0u8),
            Reply::Byte(b) => Ok(b),
            Reply::SpiFailed(e) => Err(Error::Spi(e)),
            Reply::PinFailed(e) => Err(Error::Pin(e)),
        }
    }

    /// Whether the action failed.
    pub open spec fn failed(self) -> bool {
        self.outcome() is Err
    }

    /// Turns the reply into a result: a failed transfer becomes
    /// [`Error::Spi`], a failed pin [`Error::Pin`].
    pub fn into_result(self) -> (r: Result<u8, Error<SpiError, PinError>>)
        ensures
            r == self.outcome(),
    {
        match self {
            Reply::Done => Ok(0u8),
            Reply::Byte(b) => Ok(b),
            Reply::SpiFailed(e) => Err(Error::from(e)),
            Reply::PinFailed(e) => Err(Error::Pin(e)),
        }
    }
}

} // verus!
