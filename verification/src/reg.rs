//! Register map, field masks and the enumerated field values.
#![allow(non_upper_case_globals)]
#![allow(non_camel_case_types)]

use vstd::prelude::*;

verus! {

/// Register mapping
#[derive(Copy, Clone, Debug, PartialEq, Eq)]
pub enum Register {
    STATUS_REG_AUX,
    OUT_TEMP_L,
    OUT_TEMP_H,
    WHO_AM_I,
    CTRL_REG0,
    TEMP_CFG_REG,
    CTRL_REG1,
    CTRL_REG2,
    CTRL_REG3,
    CTRL_REG4,
    CTRL_REG5,
    CTRL_REG6,
    REFERENCE,
    STATUS_REG,
    OUT_X_L,
    OUT_X_H,
    OUT_Y_L,
    OUT_Y_H,
    OUT_Z_L,
    OUT_Z_H,
    FIFO_CTRL_REG,
    FIFO_SRC_REG,
    INT1_CFG,
    INT1_SRC,
    INT1_THS,
    INT1_DURATION,
    INT2_CFG,
    INT2_SRC,
    INT2_THS,
    INT2_DURATION,
    CLICK_CFG,
    CLICK_SRC,
    CLICK_THS,
    TIME_LIMIT,
    TIME_LATENCY,
    TIME_WINDOW,
    ACT_THS,
    ACT_DUR,
}

impl Register {
    /// The register's address on the device.
    pub open spec fn address(self) -> u8 {
        match self {
            Register::STATUS_REG_AUX => 0x07,
            Register::OUT_TEMP_L => 0x0C,
            Register::OUT_TEMP_H => 0x0D,
            Register::WHO_AM_I => 0x0F,
            Register::CTRL_REG0 => 0x1E,
            Register::TEMP_CFG_REG => 0x1F,
            Register::CTRL_REG1 => 0x20,
            Register::CTRL_REG2 => 0x21,
            Register::CTRL_REG3 => 0x22,
            Register::CTRL_REG4 => 0x23,
            Register::CTRL_REG5 => 0x24,
            Register::CTRL_REG6 => 0x25,
            Register::REFERENCE => 0x26,
            Register::STATUS_REG => 0x27,
            Register::OUT_X_L => 0x28,
            Register::OUT_X_H => 0x29,
            Register::OUT_Y_L => 0x2A,
            Register::OUT_Y_H => 0x2B,
            Register::OUT_Z_L => 0x2C,
            Register::OUT_Z_H => 0x2D,
            Register::FIFO_CTRL_REG => 0x2E,
            Register::FIFO_SRC_REG => 0x2F,
            Register::INT1_CFG => 0x30,
            Register::INT1_SRC => 0x31,
            Register::INT1_THS => 0x32,
            Register::INT1_DURATION => 0x33,
            Register::INT2_CFG => 0x34,
            Register::INT2_SRC => 0x35,
            Register::INT2_THS => 0x36,
            Register::INT2_DURATION => 0x37,
            Register::CLICK_CFG => 0x38,
            Register::CLICK_SRC => 0x39,
            Register::CLICK_THS => 0x3A,
            Register::TIME_LIMIT => 0x3B,
            Register::TIME_LATENCY => 0x3C,
            Register::TIME_WINDOW => 0x3D,
            Register::ACT_THS => 0x3E,
            Register::ACT_DUR => 0x3F,
        }
    }

    /// The register's address; it always fits the six address bits of a
    /// command byte.
    #[verifier::when_used_as_spec(address)]
    pub fn addr(self) -> (a: u8)
        ensures
            a == self.address(),
            a <= 0x3F,
    {
        match self {
            Register::STATUS_REG_AUX => 0x07,
            Register::OUT_TEMP_L => 0x0C,
            Register::OUT_TEMP_H => 0x0D,
            Register::WHO_AM_I => 0x0F,
            Register::CTRL_REG0 => 0x1E,
            Register::TEMP_CFG_REG => 0x1F,
            Register::CTRL_REG1 => 0x20,
            Register::CTRL_REG2 => 0x21,
            Register::CTRL_REG3 => 0x22,
            Register::CTRL_REG4 => 0x23,
            Register::CTRL_REG5 => 0x24,
            Register::CTRL_REG6 => 0x25,
            Register::REFERENCE => 0x26,
            Register::STATUS_REG => 0x27,
            Register::OUT_X_L => 0x28,
            Register::OUT_X_H => 0x29,
            Register::OUT_Y_L => 0x2A,
            Register::OUT_Y_H => 0x2B,
            Register::OUT_Z_L => 0x2C,
            Register::OUT_Z_H => 0x2D,
            Register::FIFO_CTRL_REG => 0x2E,
            Register::FIFO_SRC_REG => 0x2F,
            Register::INT1_CFG => 0x30,
            Register::INT1_SRC => 0x31,
            Register::INT1_THS => 0x32,
            Register::INT1_DURATION => 0x33,
            Register::INT2_CFG => 0x34,
            Register::INT2_SRC => 0x35,
            Register::INT2_THS => 0x36,
            Register::INT2_DURATION => 0x37,
            Register::CLICK_CFG => 0x38,
            Register::CLICK_SRC => 0x39,
            Register::CLICK_THS => 0x3A,
            Register::TIME_LIMIT => 0x3B,
            Register::TIME_LATENCY => 0x3C,
            Register::TIME_WINDOW => 0x3D,
            Register::ACT_THS => 0x3E,
            Register::ACT_DUR => 0x3F,
        }
    }
}

/// AOI-6D Interrupt mode
#[derive(Copy, Clone, Debug, PartialEq, Eq)]
pub enum Aoi6d {
    /// OR combination of interrupt events
    Or,
    /// 6-direction movement recognition
    Movement6D,
    /// AND combination of interrupt events
    And,
    /// 6-direction position recognition
    Position6D,
}

impl Aoi6d {
    /// The two-bit code of the mode, as the `AOI` and `6D` bits hold it.
    pub open spec fn code(self) -> u8 {
        match self {
            Aoi6d::Or => 0b00,
            Aoi6d::Movement6D => 0b01,
            Aoi6d::And => 0b10,
            Aoi6d::Position6D => 0b11,
        }
    }

    /// The two-bit code of the mode.
    #[verifier::when_used_as_spec(code)]
    pub fn bits(self) -> (b: u8)
        ensures
            b == self.code(),
            b <= 0b11,
    {
        match self {
            Aoi6d::Or => 0b00,
            Aoi6d::Movement6D => 0b01,
            Aoi6d::And => 0b10,
            Aoi6d::Position6D => 0b11,
        }
    }
}

// === INT1_CFG (30h), INT2_CFG (34h) ===
pub const AOI_6D_MASK: u8 = 0b1100_0000;

pub const INT1_CFG_ENABLE_CLICK: u8 = 0b0011_1111;

// === CTRL_REG5 (24h) ===
pub const BOOT: u8 = 0b1000_0000;

pub const FIFO_EN: u8 = 0b0100_0000;

pub const LIR_INT1: u8 = 0b0000_1000;

pub const D4D_INT1: u8 = 0b0000_0100;

pub const LIR_INT2: u8 = 0b0000_0010;

pub const D4D_INT2: u8 = 0b0000_0001;

// === CTRL_REG6 (25h) ===
pub const I2_CLICK: u8 = 0b1000_0000;

pub const I2_IA1: u8 = 0b0100_0000;

pub const I2_IA2: u8 = 0b0010_0000;

pub const I2_BOOT: u8 = 0b0001_0000;

pub const I2_ACT: u8 = 0b0000_1000;

pub const INT_POLARITY: u8 = 0b0000_0010;

// === INT1_THS (32h), INT2_THS (36h) ===
pub const THS_MASK: u8 = 0b0111_1111;

// === CLICK_CFG (38h) ===
pub const ZD: u8 = 0b0010_0000;

pub const ZS: u8 = 0b0001_0000;

pub const YD: u8 = 0b0000_1000;

pub const YS: u8 = 0b0000_0100;

pub const XD: u8 = 0b0000_0010;

pub const XS: u8 = 0b0000_0001;

/// Output Data Rate
#[derive(Copy, Clone, Debug, PartialEq, Eq)]
pub enum OutputDataRate {
    /// Power-down mode
    PowerDown,
    /// 1 Hz
    Hz1,
    /// 10 Hz
    Hz10,
    /// 25 Hz
    Hz25,
    /// 50 Hz
    Hz50,
    /// 100 Hz
    Hz100,
    /// 200 Hz
    Hz200,
    /// 400 Hz
    Hz400,
    /// Low-power mode (1.620 kHz)
    HighRate0,
    /// High-resolution / Normal (1.344 kHz),
    /// Low-power (5.376 kHz)
    HighRate1,
}

impl OutputDataRate {
    /// The four-bit code of the rate, as the `ODR` field holds it.
    pub open spec fn code(self) -> u8 {
        match self {
            OutputDataRate::PowerDown => 0b0000,
            OutputDataRate::Hz1 => 0b0001,
            OutputDataRate::Hz10 => 0b0010,
            OutputDataRate::Hz25 => 0b0011,
            OutputDataRate::Hz50 => 0b0100,
            OutputDataRate::Hz100 => 0b0101,
            OutputDataRate::Hz200 => 0b0110,
            OutputDataRate::Hz400 => 0b0111,
            OutputDataRate::HighRate0 => 0b1000,
            OutputDataRate::HighRate1 => 0b1001,
        }
    }

    /// The four-bit code of the rate.
    #[verifier::when_used_as_spec(code)]
    pub fn bits(self) -> (b: u8)
        ensures
            b == self.code(),
            b <= 0b1001,
    {
        match self {
            OutputDataRate::PowerDown => 0b0000,
            OutputDataRate::Hz1 => 0b0001,
            OutputDataRate::Hz10 => 0b0010,
            OutputDataRate::Hz25 => 0b0011,
            OutputDataRate::Hz50 => 0b0100,
            OutputDataRate::Hz100 => 0b0101,
            OutputDataRate::Hz200 => 0b0110,
            OutputDataRate::Hz400 => 0b0111,
            OutputDataRate::HighRate0 => 0b1000,
            OutputDataRate::HighRate1 => 0b1001,
        }
    }
}

/// WHO_AM_I device identification register
pub const DEVICE_ID: u8 = 0b0011_0011;

// === CTRL_REG1 (20h) ===
pub const ODR_MASK: u8 = 0b1111_0000;

pub const LPen: u8 = 0b0000_1000;

pub const Zen: u8 = 0b0000_0100;

pub const Yen: u8 = 0b0000_0010;

pub const Xen: u8 = 0b0000_0001;

pub const HR: u8 = 0b0000_1000;

// === TEMP_CFG_REG (1Fh) ===
pub const TEMP_EN: u8 = 0b1100_0000;

// === CTRL_REG3 (22h) ===
pub const I1_CLICK: u8 = 0b1000_0000;

pub const I1_IA1: u8 = 0b0100_0000;

pub const I1_IA2: u8 = 0b0010_0000;

pub const I1_ZYXDA: u8 = 0b0001_0000;

pub const I1_WTM: u8 = 0b0000_0100;

pub const I1_OVERRUN: u8 = 0b0000_0010;

// === CTRL_REG4 (23h) ===
pub const BDU: u8 = 0b1000_0000;

pub const FS_MASK: u8 = 0b0011_0000;

/// Full-scale selection
#[derive(Copy, Clone, Debug, PartialEq, Eq)]
pub enum FullScaleSelection {
    /// ±2 g, the device's setting after power-up
    PlusMinus2G,
    /// ±4 g
    PlusMinus4G,
    /// ±8 g
    PlusMinus8G,
    /// ±16 g
    PlusMinus16G,
}

impl FullScaleSelection {
    /// The two-bit code of the range, as the `FS` field holds it.
    pub open spec fn code(self) -> u8 {
        match self {
            FullScaleSelection::PlusMinus2G => 0x00,
            FullScaleSelection::PlusMinus4G => 0x01,
            FullScaleSelection::PlusMinus8G => 0x02,
            FullScaleSelection::PlusMinus16G => 0x03,
        }
    }

    /// The two-bit code of the range.
    #[verifier::when_used_as_spec(code)]
    pub fn bits(self) -> (b: u8)
        ensures
            b == self.code(),
            b <= 0x03,
    {
        match self {
            FullScaleSelection::PlusMinus2G => 0x00,
            FullScaleSelection::PlusMinus4G => 0x01,
            FullScaleSelection::PlusMinus8G => 0x02,
            FullScaleSelection::PlusMinus16G => 0x03,
        }
    }

    /// Thousandths of a g that one count of a twelve-bit reading stands for.
    pub open spec fn milli_g_per_count(self) -> int {
        match self {
            FullScaleSelection::PlusMinus2G => 1,
            FullScaleSelection::PlusMinus4G => 2,
            FullScaleSelection::PlusMinus8G => 4,
            FullScaleSelection::PlusMinus16G => 12,
        }
    }

    /// Thousandths of a g that one count of a twelve-bit reading stands for:
    /// 1, 2, 4 and 12 for ±2 g, ±4 g, ±8 g and ±16 g.
    pub fn sensitivity(self) -> (s: i16)
        ensures
            s == self.milli_g_per_count(),
    {
        match self {
            FullScaleSelection::PlusMinus2G => 1,
            FullScaleSelection::PlusMinus4G => 2,
            FullScaleSelection::PlusMinus8G => 4,
            FullScaleSelection::PlusMinus16G => 12,
        }
    }
}

/// Data status structure,
/// decoded from STATUS_REG register
#[derive(Copy, Clone, Debug, PartialEq, Eq)]
pub struct DataStatus {
    /// ZYXOR bit
    pub zyxor: bool,
    /// (XOR, YOR, ZOR) bits
    pub xyzor: (bool, bool, bool),
    /// ZYXDA bit
    pub zyxda: bool,
    /// (XDA, YDA, ZDA) bits
    pub xyzda: (bool, bool, bool),
}

/// Operating mode
#[derive(Copy, Clone, Debug, PartialEq, Eq)]
pub enum OperatingMode {
    /// High-resolution mode (12-bit data output)
    HighResolution,
    /// Normal mode (10-bit data output)
    Normal,
    /// Low-power mode (8-bit data output)
    LowPower,
}

// === STATUS_REG (27h) ===
pub const ZYXOR: u8 = 0b1000_0000;

pub const ZOR: u8 = 0b0100_0000;

pub const YOR: u8 = 0b0010_0000;

pub const XOR: u8 = 0b0001_0000;

pub const ZYXDA: u8 = 0b0000_1000;

pub const ZDA: u8 = 0b0000_0100;

pub const YDA: u8 = 0b0000_0010;

pub const XDA: u8 = 0b0000_0001;

/// No two registers share an address, so a command byte names one register.
pub proof fn lemma_addresses_distinct(a: Register, b: Register)
    requires
        a.address() == b.address(),
    ensures
        a == b,
{
}

} // verus!
