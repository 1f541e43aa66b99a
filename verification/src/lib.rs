//! Driver core for the LIS2DH12 three-axis accelerometer on a four-wire
//! serial bus with a dedicated chip-select line.
//!
//! The crate performs no I/O. Every driver call on a [`Lis2dh12`] yields an
//! [`Operation`]: a suspended computation that names the next bus [`Action`]
//! and, handed the [`Reply`] to it by [`Lis2dh12::resume`], either names the
//! following one or finishes with its result. The caller owns the loop that
//! performs the actions on the transport and the chip-select pin.
//!
//! A call is a script of register steps ([`RegOp`]); each step is one or two
//! transactions ([`Exchange`]); each transaction is chip-select low, a
//! command byte, the data bytes, chip-select high. Whatever the bus replies,
//! chip-select is released before a call ends, and the first failure is the
//! call's error.
//!
//! The modules [`framing`], [`running`], [`discipline`], [`outcomes`],
//! [`echo`] and [`session`] hold no code that runs: they state and prove what
//! the transactions and the calls do on every bus, on a bus that works, and
//! on a device that keeps what is written to it.

pub mod bus;
pub mod calls;
pub mod decode;
pub mod device;
pub mod discipline;
pub mod echo;
pub mod error;
pub mod exchange;
pub mod framing;
pub mod operation;
pub mod outcomes;
pub mod reg;
pub mod running;
pub mod session;

pub use crate::bus::{Action, Reply};
pub use crate::decode::{Axes, Normalized, Temperature};
pub use crate::device::Lis2dh12;
pub use crate::error::Error;
pub use crate::exchange::{Body, Exchange, Phase, Progress};
pub use crate::operation::{Finish, Operation, Output, Patch, RegOp, Step};
pub use crate::reg::{
    Aoi6d, DataStatus, FullScaleSelection, LPen, OperatingMode, OutputDataRate, Register, Xen,
    Yen, Zen, AOI_6D_MASK, BDU, BOOT, D4D_INT1, D4D_INT2, DEVICE_ID, FIFO_EN, FS_MASK, HR,
    I1_CLICK, I1_IA1, I1_IA2, I1_OVERRUN, I1_WTM, I1_ZYXDA, I2_ACT, I2_BOOT, I2_CLICK, I2_IA1,
    I2_IA2, INT1_CFG_ENABLE_CLICK, INT_POLARITY, LIR_INT1, LIR_INT2, ODR_MASK, TEMP_EN, THS_MASK,
    XD, XDA, XOR, XS, YD, YDA, YOR, YS, ZD, ZDA, ZOR, ZS, ZYXDA, ZYXOR,
};
