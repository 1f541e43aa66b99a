//! The driver's error type.
use vstd::prelude::*;

verus! {

/// What a driver call can fail with.
#[derive(Debug)]
pub enum Error<SpiError, PinError> {
    /// SPI communication error
    Spi(SpiError),
    /// CS output pin error
    Pin(PinError),
    /// The identity register held this byte instead of the device's identity.
    InvalidWhoAmI(u8),
}

impl<SpiError, PinError> From<SpiError> for Error<SpiError, PinError> {
    fn from(err: SpiError) -> (e: Self) {
        Self::Spi(err)
    }
}

impl<SpiError, PinError> vstd::std_specs::convert::FromSpecImpl<SpiError> for Error<SpiError, PinError> {
    open spec fn obeys_from_spec() -> bool {
        true
    }

    open spec fn from_spec(err: SpiError) -> Self {
        Error::Spi(err)
    }
}

} // verus!
