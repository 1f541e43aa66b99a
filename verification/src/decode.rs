//! From register bytes to readings.
use crate::reg::{DataStatus, FullScaleSelection, XDA, XOR, YDA, YOR, ZDA, ZOR, ZYXDA, ZYXOR};
use vstd::prelude::*;

verus! {

/// One value per axis.
#[derive(Copy, Clone, Debug, PartialEq, Eq)]
pub struct Axes {
    /// X component
    pub x: i16,
    /// Y component
    pub y: i16,
    /// Z component
    pub z: i16,
}

/// An acceleration reading in physical units.
#[derive(Copy, Clone, Debug, PartialEq, Eq)]
pub struct Normalized {
    /// The acceleration in thousandths of a g.
    pub milli_g: Axes,
    /// The twelve-bit counts that the device measured.
    pub counts: Axes,
    /// The full-scale range by which the counts were scaled.
    pub scale: FullScaleSelection,
}

/// A temperature reading.
#[derive(Copy, Clone, Debug, PartialEq, Eq)]
pub struct Temperature {
    /// The ten-bit count that the device measured: quarters of a degree
    /// above 25 °C.
    pub counts: i16,
    /// The temperature in hundredths of a degree Celsius.
    pub centi_celsius: i16,
}

/// The signed sixteen-bit number whose low byte is `lo` and whose high byte
/// is `hi`, in two's complement.
pub open spec fn word(lo: u8, hi: u8) -> int {
    let unsigned = lo as int + 256 * (hi as int);
    if unsigned >= 32768 {
        unsigned - 65536
    } else {
        unsigned
    }
}

/// The signed number that the byte stands for in two's complement.
pub open spec fn signed(byte: u8) -> int {
    if byte >= 128 {
        byte as int - 256
    } else {
        byte as int
    }
}

/// The three axes of six output bytes: X, Y and Z in turn, low byte first.
pub open spec fn axes_of(bytes: Seq<u8>) -> Axes
    recommends
        bytes.len() == 6,
{
    Axes {
        x: word(bytes[0], bytes[1]) as i16,
        y: word(bytes[2], bytes[3]) as i16,
        z: word(bytes[4], bytes[5]) as i16,
    }
}

/// The twelve-bit count of a left-justified sixteen-bit reading: the reading
/// divided by sixteen, rounded down.
pub open spec fn count_of(raw: i16) -> int {
    raw as int / 16
}

/// A raw reading in physical units under the range `scale`.
pub open spec fn normalized(raw: Axes, scale: FullScaleSelection) -> Normalized {
    Normalized {
        milli_g: Axes {
            x: (count_of(raw.x) * scale.milli_g_per_count()) as i16,
            y: (count_of(raw.y) * scale.milli_g_per_count()) as i16,
            z: (count_of(raw.z) * scale.milli_g_per_count()) as i16,
        },
        counts: Axes {
            x: count_of(raw.x) as i16,
            y: count_of(raw.y) as i16,
            z: count_of(raw.z) as i16,
        },
        scale,
    }
}

/// The flags of a status byte.
pub open spec fn status_of(reg: u8) -> DataStatus {
    DataStatus {
        zyxor: (reg & ZYXOR) != 0,
        xyzor: ((reg & XOR) != 0, (reg & YOR) != 0, (reg & ZOR) != 0),
        zyxda: (reg & ZYXDA) != 0,
        xyzda: ((reg & XDA) != 0, (reg & YDA) != 0, (reg & ZDA) != 0),
    }
}

/// The ten-bit temperature count of the two output bytes: the high byte is
/// signed and counts four each, the top two bits of the low byte count one
/// each.
pub open spec fn temperature_count(out_h: i8, out_l: u8) -> int {
    4 * (out_h as int) + (out_l as int) / 64
}

/// The temperature of the two output bytes: a count is a quarter of a degree,
/// and count zero is 25 °C.
pub open spec fn temperature_of(out_h: i8, out_l: u8) -> Temperature {
    Temperature {
        counts: temperature_count(out_h, out_l) as i16,
        centi_celsius: (25 * temperature_count(out_h, out_l) + 2500) as i16,
    }
}

/// Reassembles one axis from its two output bytes.
pub fn axis(lo: u8, hi: u8) -> (value: i16)
    ensures
        value == word(lo, hi),
{
    let high: u16 = (hi as u16) << 8;
    assert(((hi as u16) << 8) == 256 * (hi as u16)) by (bit_vector);
    let unsigned: u16 = (lo as u16) + high;
    assert(unsigned >= 32768 ==> (unsigned as i16) == unsigned - 65536) by (bit_vector);
    assert(unsigned < 32768 ==> (unsigned as i16) == unsigned) by (bit_vector);
    #[verifier::truncate]
    (unsigned as i16)
}

/// Reassembles the three axes from the six output bytes.
pub fn raw_axes(bytes: &[u8; 6]) -> (raw: Axes)
    ensures
        raw == axes_of(bytes@),
{
    Axes {
        x: axis(bytes[0], bytes[1]),
        y: axis(bytes[2], bytes[3]),
        z: axis(bytes[4], bytes[5]),
    }
}

/// Drops the four empty low bits of a left-justified reading.
pub fn count(raw: i16) -> (value: i16)
    ensures
        value == count_of(raw),
        -2048 <= value <= 2047,
{
    assert((raw >> 4) == raw as int / 16) by (bit_vector);
    assert(-2048 <= raw as int / 16 <= 2047);
    raw >> 4
}

/// Converts a raw reading to physical units under the range `scale`: each
/// axis is shifted down to its twelve-bit count and multiplied by the
/// sensitivity of the range.
pub fn normalize(raw: Axes, scale: FullScaleSelection) -> (reading: Normalized)
    ensures
        reading == normalized(raw, scale),
        reading.milli_g.x == count_of(raw.x) * scale.milli_g_per_count(),
        reading.milli_g.y == count_of(raw.y) * scale.milli_g_per_count(),
        reading.milli_g.z == count_of(raw.z) * scale.milli_g_per_count(),
{
    let sensitivity: i16 = scale.sensitivity();
    let counts = Axes { x: count(raw.x), y: count(raw.y), z: count(raw.z) };
    assert(-2048 * 12 <= counts.x * sensitivity <= 2047 * 12) by (nonlinear_arith)
        requires
            -2048 <= counts.x <= 2047,
            1 <= sensitivity <= 12,
    ;
    assert(-2048 * 12 <= counts.y * sensitivity <= 2047 * 12) by (nonlinear_arith)
        requires
            -2048 <= counts.y <= 2047,
            1 <= sensitivity <= 12,
    ;
    assert(-2048 * 12 <= counts.z * sensitivity <= 2047 * 12) by (nonlinear_arith)
        requires
            -2048 <= counts.z <= 2047,
            1 <= sensitivity <= 12,
    ;
    Normalized {
        milli_g: Axes {
            x: counts.x * sensitivity,
            y: counts.y * sensitivity,
            z: counts.z * sensitivity,
        },
        counts,
        scale,
    }
}

/// Decodes a status byte into its overrun and data-ready flags.
pub fn status(reg: u8) -> (flags: DataStatus)
    ensures
        flags == status_of(reg),
{
    DataStatus {
        zyxor: (reg & ZYXOR) != 0,
        xyzor: ((reg & XOR) != 0, (reg & YOR) != 0, (reg & ZOR) != 0),
        zyxda: (reg & ZYXDA) != 0,
        xyzda: ((reg & XDA) != 0, (reg & YDA) != 0, (reg & ZDA) != 0),
    }
}

/// Reads a byte as a signed number in two's complement.
pub fn as_signed(byte: u8) -> (value: i8)
    ensures
        value == signed(byte),
{
    assert(byte >= 128 ==> (byte as i8) == byte - 256) by (bit_vector);
    assert(byte < 128 ==> (byte as i8) == byte) by (bit_vector);
    #[verifier::truncate]
    (byte as i8)
}

/// Decodes the two temperature bytes: the sixteen-bit word of the signed high
/// byte and the low byte, shifted down by six, is the count.
pub fn temperature(out_h: i8, out_l: u8) -> (reading: Temperature)
    ensures
        reading == temperature_of(out_h, out_l),
        reading.counts == temperature_count(out_h, out_l),
        reading.centi_celsius == 25 * temperature_count(out_h, out_l) + 2500,
{
    assert(((((out_h as i16) << 8) | (out_l as i16)) >> 6) == 4 * (out_h as int) + (out_l as int)
        / 64) by (bit_vector);
    let value: i16 = (((out_h as i16) << 8) | (out_l as i16)) >> 6;
    assert(-512 <= value <= 511);
    Temperature { counts: value, centi_celsius: 25 * value + 2500 }
}

} // verus!
