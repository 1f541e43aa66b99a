//! The driver's calls as scripts: which registers each one reads, writes or
//! modifies, in which order, and what it hands back.
#![allow(non_upper_case_globals)]

use crate::operation::{Finish, OperationModel, Patch, RegOp};
use crate::reg::{
    Aoi6d, FullScaleSelection, LPen, OperatingMode, OutputDataRate, Register, Xen, Yen, Zen,
    AOI_6D_MASK, BDU, FS_MASK, HR, I1_CLICK, INT1_CFG_ENABLE_CLICK, INT_POLARITY, LIR_INT1,
    ODR_MASK, TEMP_EN, THS_MASK, XD, XS, YD, YS, ZD, ZS,
};
use vstd::prelude::*;

verus! {

/// The driver's calls, each with its arguments.
pub ghost enum Call {
    CheckWhoAmI,
    GetDeviceId,
    SetBdu(bool),
    EnableTemp(bool),
    SetOutputDataRate(OutputDataRate),
    GetRef,
    SetOperatingMode(OperatingMode),
    GetRaw,
    SetScale(FullScaleSelection),
    EnableAxis(bool, bool, bool),
    GetNorm,
    GetStatus,
    GetTemperatureRaw,
    GetTemperatureRawFoo,
    GetTemperatureC,
    EnableDoubleClick(bool, bool, bool),
    Int1SetMode(Aoi6d),
    Int1EnableClick(bool),
    EnableI1Click(bool),
    EnableLirInt1(bool),
    EnableSingleClick(bool, bool, bool),
    SetIntPolarity(bool),
    SetClickThs(u8),
}

/// The step that sets the bits `bits` of `reg` if `set` holds and clears them
/// if not.
pub open spec fn xset(reg: Register, bits: u8, set: bool) -> RegOp {
    if set {
        RegOp::Modify(reg, Patch { clear: 0, set: bits })
    } else {
        RegOp::Modify(reg, Patch { clear: bits, set: 0 })
    }
}

/// The bits among `x`, `y` and `z` whose flag holds.
pub open spec fn chosen(flags: (bool, bool, bool), x: u8, y: u8, z: u8) -> u8 {
    (if flags.0 {
        x
    } else {
        0u8
    }) | (if flags.1 {
        y
    } else {
        0u8
    }) | (if flags.2 {
        z
    } else {
        0u8
    })
}

impl Call {
    /// The register steps of the call, in order.
    pub open spec fn script(self) -> Seq<RegOp> {
        match self {
            Call::CheckWhoAmI => seq![RegOp::Read(Register::WHO_AM_I)],
            Call::GetDeviceId => seq![RegOp::Read(Register::WHO_AM_I)],
            Call::SetBdu(bdu) => seq![xset(Register::CTRL_REG4, BDU, bdu)],
            Call::EnableTemp(enable) => if enable {
                seq![
                    xset(Register::TEMP_CFG_REG, TEMP_EN, true),
                    xset(Register::CTRL_REG4, BDU, true),
                ]
            } else {
                seq![xset(Register::TEMP_CFG_REG, TEMP_EN, false)]
            },
            Call::SetOutputDataRate(odr) => {
                let rate = RegOp::Modify(
                    Register::CTRL_REG1,
                    Patch { clear: ODR_MASK, set: odr.code() << 4 },
                );
                if odr is PowerDown {
                    seq![rate, RegOp::Read(Register::REFERENCE)]
                } else {
                    seq![rate]
                }
            },
            Call::GetRef => seq![RegOp::Read(Register::REFERENCE)],
            Call::SetOperatingMode(mode) => match mode {
                OperatingMode::LowPower => seq![
                    xset(Register::CTRL_REG4, HR, false),
                    xset(Register::CTRL_REG1, LPen, true),
                ],
                OperatingMode::Normal => seq![
                    xset(Register::CTRL_REG1, LPen, false),
                    xset(Register::CTRL_REG4, HR, false),
                ],
                OperatingMode::HighResolution => seq![
                    xset(Register::CTRL_REG1, LPen, false),
                    xset(Register::CTRL_REG4, HR, true),
                ],
            },
            Call::GetRaw => seq![RegOp::Burst(Register::OUT_X_L, 6)],
            Call::SetScale(fs) => seq![
                RegOp::Modify(Register::CTRL_REG4, Patch { clear: FS_MASK, set: fs.code() << 4 }),
            ],
            Call::EnableAxis(x, y, z) => seq![
                RegOp::Modify(
                    Register::CTRL_REG1,
                    Patch { clear: Xen | Yen | Zen, set: chosen((x, y, z), Xen, Yen, Zen) },
                ),
            ],
            Call::GetNorm => seq![RegOp::Burst(Register::OUT_X_L, 6)],
            Call::GetStatus => seq![RegOp::Read(Register::STATUS_REG)],
            Call::GetTemperatureRaw => seq![RegOp::Burst(Register::OUT_TEMP_L, 2)],
            Call::GetTemperatureRawFoo => seq![RegOp::Burst(Register::OUT_TEMP_L, 2)],
            Call::GetTemperatureC => seq![RegOp::Burst(Register::OUT_TEMP_L, 2)],
            Call::EnableDoubleClick(x, y, z) => seq![
                RegOp::Modify(
                    Register::CLICK_CFG,
                    Patch { clear: XD | YD | ZD, set: chosen((x, y, z), XD, YD, ZD) },
                ),
            ],
            Call::Int1SetMode(mode) => seq![
                RegOp::Modify(
                    Register::INT1_CFG,
                    Patch { clear: AOI_6D_MASK, set: mode.code() << 6 },
                ),
            ],
            Call::Int1EnableClick(enable) => seq![
                xset(Register::INT1_CFG, INT1_CFG_ENABLE_CLICK, enable),
            ],
            Call::EnableI1Click(enable) => seq![xset(Register::CTRL_REG3, I1_CLICK, enable)],
            Call::EnableLirInt1(latch) => seq![xset(Register::CTRL_REG5, LIR_INT1, latch)],
            Call::EnableSingleClick(x, y, z) => seq![
                RegOp::Modify(
                    Register::CLICK_CFG,
                    Patch { clear: XS | YS | ZS, set: chosen((x, y, z), XS, YS, ZS) },
                ),
            ],
            Call::SetIntPolarity(active_low) => seq![
                xset(Register::CTRL_REG6, INT_POLARITY, active_low),
            ],
            Call::SetClickThs(ths) => seq![
                RegOp::Modify(
                    Register::CLICK_THS,
                    Patch { clear: THS_MASK, set: ths & THS_MASK },
                ),
            ],
        }
    }

    /// How the call's result is read from the bytes of its last step.
    pub open spec fn finish(self) -> Finish {
        match self {
            Call::CheckWhoAmI => Finish::Identity,
            Call::GetDeviceId => Finish::Byte,
            Call::GetRef => Finish::Byte,
            Call::GetRaw => Finish::Raw,
            Call::SetScale(fs) => Finish::Scale(fs),
            Call::GetNorm => Finish::Norm,
            Call::GetStatus => Finish::Status,
            Call::GetTemperatureRaw => Finish::TemperatureRaw,
            Call::GetTemperatureRawFoo => Finish::TemperatureBytes,
            Call::GetTemperatureC => Finish::TemperatureC,
            _ => Finish::Nothing,
        }
    }

    /// The call before its first action.
    pub open spec fn begin<SpiError, PinError>(self) -> OperationModel<SpiError, PinError> {
        OperationModel::start(self.script(), self.finish())
    }
}

/// The rate field: after the patch of the rate call, bits 7 to 4 of the
/// register hold the rate's code and the low four bits are as they were.
pub proof fn lemma_rate_field(odr: OutputDataRate, value: u8)
    ensures
        ({
            let patched = (Patch { clear: ODR_MASK, set: odr.code() << 4 }).applied(value);
            &&& patched >> 4 == odr.code()
            &&& patched & !ODR_MASK == value & !ODR_MASK
        }),
{
    let code = odr.code();
    assert(code <= 9 ==> ((value & !0xF0u8) | (code << 4)) >> 4 == code && ((value & !0xF0u8) | (code
        << 4)) & !0xF0u8 == value & !0xF0u8) by (bit_vector);
}

/// The range field: after the patch of the range call, bits 5 and 4 of the
/// register hold the range's code and the other bits are as they were.
pub proof fn lemma_scale_field(fs: FullScaleSelection, value: u8)
    ensures
        ({
            let patched = (Patch { clear: FS_MASK, set: fs.code() << 4 }).applied(value);
            &&& (patched & FS_MASK) >> 4 == fs.code()
            &&& patched & !FS_MASK == value & !FS_MASK
        }),
{
    let code = fs.code();
    assert(code <= 3 ==> (((value & !0x30u8) | (code << 4)) & 0x30u8) >> 4 == code && ((value
        & !0x30u8) | (code << 4)) & !0x30u8 == value & !0x30u8) by (bit_vector);
}

/// The interrupt-mode field: after the patch of the mode call, bits 7 and 6
/// of the register hold the mode's code and the other bits are as they were.
pub proof fn lemma_mode_field(mode: Aoi6d, value: u8)
    ensures
        ({
            let patched = (Patch { clear: AOI_6D_MASK, set: mode.code() << 6 }).applied(value);
            &&& patched >> 6 == mode.code()
            &&& patched & !AOI_6D_MASK == value & !AOI_6D_MASK
        }),
{
    let code = mode.code();
    assert(code <= 3 ==> ((value & !0xC0u8) | (code << 6)) >> 6 == code && ((value & !0xC0u8) | (code
        << 6)) & !0xC0u8 == value & !0xC0u8) by (bit_vector);
}

/// The threshold field: after the patch of the threshold call, the low
/// seven bits of the register hold the threshold cut to seven bits, and bit 7
/// is as it was.
pub proof fn lemma_threshold_field(ths: u8, value: u8)
    ensures
        ({
            let patched = (Patch { clear: THS_MASK, set: ths & THS_MASK }).applied(value);
            &&& patched == (value & 0x80) | (ths & 0x7F)
            &&& patched & THS_MASK == ths & THS_MASK
            &&& patched & !THS_MASK == value & !THS_MASK
            &&& ths <= 0x7F ==> patched & THS_MASK == ths
        }),
{
    assert(((value & !0x7Fu8) | (ths & 0x7Fu8)) == (value & 0x80u8) | (ths & 0x7Fu8))
        by (bit_vector);
    assert(((value & !0x7Fu8) | (ths & 0x7Fu8)) & 0x7Fu8 == ths & 0x7Fu8) by (bit_vector);
    assert(((value & !0x7Fu8) | (ths & 0x7Fu8)) & !0x7Fu8 == value & !0x7Fu8) by (bit_vector);
    assert(ths <= 0x7F ==> ths & 0x7Fu8 == ths) by (bit_vector);
}

} // verus!
