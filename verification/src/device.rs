//! The device handle and the driver's calls.
#![allow(non_upper_case_globals)]

use crate::bus::Reply;
use crate::calls::{chosen, Call};
use crate::operation::{
    modify_reg, reg_reset_bits, reg_set_bits, reg_xset_bits, Finish, Operation, Patch, RegOp, Step,
};
use crate::reg::{
    Aoi6d, FullScaleSelection, LPen, OperatingMode, OutputDataRate, Register, Xen, Yen, Zen,
    AOI_6D_MASK, BDU, FS_MASK, HR, I1_CLICK, INT1_CFG_ENABLE_CLICK, INT_POLARITY, LIR_INT1,
    ODR_MASK, TEMP_EN, THS_MASK, XD, XS, YD, YS, ZD, ZS,
};
use vstd::prelude::*;

verus! {

/// The handle of one device: the transport, the chip-select pin, and the
/// full-scale range that the device was last set to.
pub struct Lis2dh12<SPI, CS> {
    spi: SPI,
    cs: CS,
    scale: FullScaleSelection,
}

/// The mathematical content of a [`Lis2dh12`].
pub ghost struct Lis2dh12Model<SPI, CS> {
    /// The transport.
    pub spi: SPI,
    /// The chip-select pin.
    pub cs: CS,
    /// The full-scale range that readings are scaled by.
    pub scale: FullScaleSelection,
}

impl<SPI, CS> View for Lis2dh12<SPI, CS> {
    type V = Lis2dh12Model<SPI, CS>;

    closed spec fn view(&self) -> Lis2dh12Model<SPI, CS> {
        Lis2dh12Model { spi: self.spi, cs: self.cs, scale: self.scale }
    }
}

/// Gathers the bits among `x`, `y` and `z` whose flag holds.
fn gather(flags: (bool, bool, bool), x: u8, y: u8, z: u8) -> (set: u8)
    ensures
        set == chosen(flags, x, y, z),
{
    let on_x: u8 = if flags.0 { x } else { 0 };
    let on_y: u8 = if flags.1 { y } else { 0 };
    let on_z: u8 = if flags.2 { z } else { 0 };
    let mut set: u8 = 0;
    set |= on_x;
    set |= on_y;
    set |= on_z;
    assert(((0u8 | on_x) | on_y) | on_z == (on_x | on_y) | on_z) by (bit_vector);
    set
}

impl<SPI, CS> Lis2dh12<SPI, CS> {
    /// Makes a handle from the transport and the chip-select pin. The range is
    /// ±2 g, the device's own after power-up.
    pub fn new(spi: SPI, cs: CS) -> (device: Self)
        ensures
            device@ == (Lis2dh12Model { spi, cs, scale: FullScaleSelection::PlusMinus2G }),
    {
        Self { spi, cs, scale: FullScaleSelection::PlusMinus2G }
    }

    /// Gives the transport and the chip-select pin back.
    pub fn destroy(self) -> (parts: (SPI, CS))
        ensures
            parts == (self@.spi, self@.cs),
    {
        (self.spi, self.cs)
    }

    /// The full-scale range that readings are scaled by: the one last
    /// selected through this handle.
    pub fn scale(&self) -> (scale: FullScaleSelection)
        ensures
            scale == self@.scale,
    {
        self.scale
    }

    /// The transport and the chip-select pin, to perform an action on.
    pub fn bus(&mut self) -> (parts: (&mut SPI, &mut CS))
        ensures
            *parts.0 == old(self)@.spi,
            *parts.1 == old(self)@.cs,
            final(self)@ == (Lis2dh12Model {
                spi: *final(parts.0),
                cs: *final(parts.1),
                scale: old(self)@.scale,
            }),
    {
        (&mut self.spi, &mut self.cs)
    }

    /// Operating mode selection,
    /// `CTRL_REG1`: `LPen` bit,
    /// `CTRL_REG4`: `HR` bit
    ///
    /// The two bits sit in two registers, so each mode takes two
    /// read-modify-write steps, one after the other.
    pub fn set_operating_mode<SpiError, PinError>(&self, mode: OperatingMode) -> (operation:
        Operation<SpiError, PinError>)
        ensures
            operation@ == Call::SetOperatingMode(mode).begin::<SpiError, PinError>(),
            operation@.wf(),
    {
        let mut script: Vec<RegOp> = Vec::new();
        match mode {
            OperatingMode::LowPower => {
                script.push(reg_reset_bits(Register::CTRL_REG4, HR));
                script.push(reg_set_bits(Register::CTRL_REG1, LPen));
            },
            OperatingMode::Normal => {
                script.push(reg_reset_bits(Register::CTRL_REG1, LPen));
                script.push(reg_reset_bits(Register::CTRL_REG4, HR));
            },
            OperatingMode::HighResolution => {
                script.push(reg_reset_bits(Register::CTRL_REG1, LPen));
                script.push(reg_set_bits(Register::CTRL_REG4, HR));
            },
        }
        assert(script@ =~= Call::SetOperatingMode(mode).script());
        Operation::start(script, Finish::Nothing)
    }

    /// Get normalized ±g reading from the accelerometer: the six output
    /// bytes are read in one burst; each axis is then shifted down to its
    /// twelve-bit count and scaled by the range that the handle holds when
    /// the call ends.
    pub fn get_norm<SpiError, PinError>(&self) -> (operation: Operation<SpiError, PinError>)
        ensures
            operation@ == Call::GetNorm.begin::<SpiError, PinError>(),
            operation@.wf(),
    {
        let script: Vec<RegOp> = vec![RegOp::Burst(Register::OUT_X_L, 6)];
        assert(script@ =~= Call::GetNorm.script());
        Operation::start(script, Finish::Norm)
    }

    /// X,Y,Z-axis enable,
    /// `CTRL_REG1`: `Xen`, `Yen`, `Zen`
    pub fn enable_axis<SpiError, PinError>(&self, axes: (bool, bool, bool)) -> (operation:
        Operation<SpiError, PinError>)
        ensures
            operation@ == Call::EnableAxis(axes.0, axes.1, axes.2).begin::<SpiError, PinError>(),
            operation@.wf(),
    {
        let set = gather(axes, Xen, Yen, Zen);
        let script: Vec<RegOp> = vec![
            modify_reg(Register::CTRL_REG1, Patch { clear: Xen | Yen | Zen, set }),
        ];
        assert(script@ =~= Call::EnableAxis(axes.0, axes.1, axes.2).script());
        Operation::start(script, Finish::Nothing)
    }

    /// Enable interrupt double-click on X,Y,Z axis,
    /// `CLICK_CFG`: `XD`, `YD`, `ZD`
    pub fn enable_double_click<SpiError, PinError>(&self, axes: (bool, bool, bool)) -> (operation:
        Operation<SpiError, PinError>)
        ensures
            operation@ == Call::EnableDoubleClick(axes.0, axes.1, axes.2).begin::<
                SpiError,
                PinError,
            >(),
            operation@.wf(),
    {
        let set = gather(axes, XD, YD, ZD);
        let script: Vec<RegOp> = vec![
            modify_reg(Register::CLICK_CFG, Patch { clear: XD | YD | ZD, set }),
        ];
        assert(script@ =~= Call::EnableDoubleClick(axes.0, axes.1, axes.2).script());
        Operation::start(script, Finish::Nothing)
    }

    /// Enable interrupt single-click on X,Y,Z axis,
    /// `CLICK_CFG`: `XS`, `YS`, `ZS`
    pub fn enable_single_click<SpiError, PinError>(&self, axes: (bool, bool, bool)) -> (operation:
        Operation<SpiError, PinError>)
        ensures
            operation@ == Call::EnableSingleClick(axes.0, axes.1, axes.2).begin::<
                SpiError,
                PinError,
            >(),
            operation@.wf(),
    {
        let set = gather(axes, XS, YS, ZS);
        let script: Vec<RegOp> = vec![
            modify_reg(Register::CLICK_CFG, Patch { clear: XS | YS | ZS, set }),
        ];
        assert(script@ =~= Call::EnableSingleClick(axes.0, axes.1, axes.2).script());
        Operation::start(script, Finish::Nothing)
    }

    /// Output data rate,
    /// `CTRL_REG1`: `ODR`
    ///
    /// When the rate is power-down, the `REFERENCE` register is read once
    /// right after the rate is written, which resets the device's filtering
    /// block. No other rate reads it.
    pub fn set_output_data_rate<SpiError, PinError>(&self, odr: OutputDataRate) -> (operation:
        Operation<SpiError, PinError>)
        ensures
            operation@ == Call::SetOutputDataRate(odr).begin::<SpiError, PinError>(),
            operation@.wf(),
    {
        let mut script: Vec<RegOp> = Vec::new();
        script.push(modify_reg(Register::CTRL_REG1, Patch { clear: ODR_MASK, set: odr.bits() << 4 }));
        if let OutputDataRate::PowerDown = odr {
            script.push(RegOp::Read(Register::REFERENCE));
        }
        assert(script@ =~= Call::SetOutputDataRate(odr).script());
        Operation::start(script, Finish::Nothing)
    }

    /// The raw acceleration: the six output bytes are read in one burst and
    /// each axis is put together from its low and its high byte.
    pub fn get_raw<SpiError, PinError>(&self) -> (operation: Operation<SpiError, PinError>)
        ensures
            operation@ == Call::GetRaw.begin::<SpiError, PinError>(),
            operation@.wf(),
    {
        let script: Vec<RegOp> = vec![RegOp::Burst(Register::OUT_X_L, 6)];
        assert(script@ =~= Call::GetRaw.script());
        Operation::start(script, Finish::Raw)
    }

    /// Data status,
    /// `STATUS_REG`: as
    /// DataStatus {zyxor: `ZYXOR`, xyzor: (`XOR`, `YOR`, `ZOR`), zyxda: `ZYXDA`, xyzda: (`XDA`, `YDA`, `ZDA`)}
    pub fn get_status<SpiError, PinError>(&self) -> (operation: Operation<SpiError, PinError>)
        ensures
            operation@ == Call::GetStatus.begin::<SpiError, PinError>(),
            operation@.wf(),
    {
        let script: Vec<RegOp> = vec![RegOp::Read(Register::STATUS_REG)];
        assert(script@ =~= Call::GetStatus.script());
        Operation::start(script, Finish::Status)
    }

    /// Checks that the device answers with its identity: `WHO_AM_I` is read
    /// in one transaction, and any byte but the device's identity is an
    /// [`Error::InvalidWhoAmI`](crate::error::Error) that carries it.
    pub fn check_who_am_i<SpiError, PinError>(&self) -> (operation: Operation<SpiError, PinError>)
        ensures
            operation@ == Call::CheckWhoAmI.begin::<SpiError, PinError>(),
            operation@.wf(),
    {
        let script: Vec<RegOp> = vec![RegOp::Read(Register::WHO_AM_I)];
        assert(script@ =~= Call::CheckWhoAmI.script());
        Operation::start(script, Finish::Identity)
    }

    /// Temperature sensor enable,
    /// `TEMP_CFG_REG`: `TEMP_EN`,
    /// the `BDU` bit in `CTRL_REG4` is also set
    ///
    /// Switching the sensor off leaves `BDU` as it is.
    pub fn enable_temp<SpiError, PinError>(&self, enable: bool) -> (operation: Operation<
        SpiError,
        PinError,
    >)
        ensures
            operation@ == Call::EnableTemp(enable).begin::<SpiError, PinError>(),
            operation@.wf(),
    {
        let mut script: Vec<RegOp> = Vec::new();
        script.push(reg_xset_bits(Register::TEMP_CFG_REG, TEMP_EN, enable));
        if enable {
            // enable block data update (required for temp reading)
            script.push(reg_set_bits(Register::CTRL_REG4, BDU));
        }
        assert(script@ =~= Call::EnableTemp(enable).script());
        Operation::start(script, Finish::Nothing)
    }

    /// AOI-6D Interrupt mode,
    /// `INTx_CFG`: `AOI`, `6D`
    pub fn int1_set_mode<SpiError, PinError>(&self, mode: Aoi6d) -> (operation: Operation<
        SpiError,
        PinError,
    >)
        ensures
            operation@ == Call::Int1SetMode(mode).begin::<SpiError, PinError>(),
            operation@.wf(),
    {
        let script: Vec<RegOp> = vec![
            modify_reg(Register::INT1_CFG, Patch { clear: AOI_6D_MASK, set: mode.bits() << 6 }),
        ];
        assert(script@ =~= Call::Int1SetMode(mode).script());
        Operation::start(script, Finish::Nothing)
    }

    /// Full-scale selection,
    /// `CTRL_REG4`: `FS`
    ///
    /// Once the field is written the handle takes `fs` as its range, with no
    /// read-back; if the call fails the handle keeps the range it had.
    pub fn set_scale<SpiError, PinError>(&self, fs: FullScaleSelection) -> (operation: Operation<
        SpiError,
        PinError,
    >)
        ensures
            operation@ == Call::SetScale(fs).begin::<SpiError, PinError>(),
            operation@.wf(),
    {
        let script: Vec<RegOp> = vec![
            modify_reg(Register::CTRL_REG4, Patch { clear: FS_MASK, set: fs.bits() << 4 }),
        ];
        assert(script@ =~= Call::SetScale(fs).script());
        Operation::start(script, Finish::Scale(fs))
    }

    /// The byte of the `WHO_AM_I` register.
    pub fn get_device_id<SpiError, PinError>(&self) -> (operation: Operation<SpiError, PinError>)
        ensures
            operation@ == Call::GetDeviceId.begin::<SpiError, PinError>(),
            operation@.wf(),
    {
        let script: Vec<RegOp> = vec![RegOp::Read(Register::WHO_AM_I)];
        assert(script@ =~= Call::GetDeviceId.script());
        Operation::start(script, Finish::Byte)
    }

    /// Block data update,
    /// `CTRL_REG4`: `BDU`
    pub fn set_bdu<SpiError, PinError>(&self, bdu: bool) -> (operation: Operation<
        SpiError,
        PinError,
    >)
        ensures
            operation@ == Call::SetBdu(bdu).begin::<SpiError, PinError>(),
            operation@.wf(),
    {
        let script: Vec<RegOp> = vec![reg_xset_bits(Register::CTRL_REG4, BDU, bdu)];
        assert(script@ =~= Call::SetBdu(bdu).script());
        Operation::start(script, Finish::Nothing)
    }

    /// `REFERENCE` register
    pub fn get_ref<SpiError, PinError>(&self) -> (operation: Operation<SpiError, PinError>)
        ensures
            operation@ == Call::GetRef.begin::<SpiError, PinError>(),
            operation@.wf(),
    {
        let script: Vec<RegOp> = vec![RegOp::Read(Register::REFERENCE)];
        assert(script@ =~= Call::GetRef.script());
        Operation::start(script, Finish::Byte)
    }

    /// Temperature sensor data,
    /// `OUT_TEMP_H`, `OUT_TEMP_L`
    ///
    /// The high byte is handed back as a signed number, then the low byte.
    pub fn get_temperature_raw<SpiError, PinError>(&self) -> (operation: Operation<
        SpiError,
        PinError,
    >)
        ensures
            operation@ == Call::GetTemperatureRaw.begin::<SpiError, PinError>(),
            operation@.wf(),
    {
        let script: Vec<RegOp> = vec![RegOp::Burst(Register::OUT_TEMP_L, 2)];
        assert(script@ =~= Call::GetTemperatureRaw.script());
        Operation::start(script, Finish::TemperatureRaw)
    }

    /// Temperature sensor data,
    /// `OUT_TEMP_H`, `OUT_TEMP_L`
    ///
    /// The high byte is handed back as it came, then the low byte.
    pub fn get_temperature_raw_foo<SpiError, PinError>(&self) -> (operation: Operation<
        SpiError,
        PinError,
    >)
        ensures
            operation@ == Call::GetTemperatureRawFoo.begin::<SpiError, PinError>(),
            operation@.wf(),
    {
        let script: Vec<RegOp> = vec![RegOp::Burst(Register::OUT_TEMP_L, 2)];
        assert(script@ =~= Call::GetTemperatureRawFoo.script());
        Operation::start(script, Finish::TemperatureBytes)
    }

    /// Temperature sensor data,
    /// `OUT_TEMP_H`, `OUT_TEMP_L` as a temperature
    ///
    /// The device delivers a ten-bit count, left-justified in the two bytes:
    /// a quarter of a degree per count, and count zero at 25 °C.
    pub fn get_temperature_c<SpiError, PinError>(&self) -> (operation: Operation<
        SpiError,
        PinError,
    >)
        ensures
            operation@ == Call::GetTemperatureC.begin::<SpiError, PinError>(),
            operation@.wf(),
    {
        let script: Vec<RegOp> = vec![RegOp::Burst(Register::OUT_TEMP_L, 2)];
        assert(script@ =~= Call::GetTemperatureC.script());
        Operation::start(script, Finish::TemperatureC)
    }

    /// Click interrupt on the first interrupt generator,
    /// `INT1_CFG`: the six event-enable bits
    pub fn int1_enable_click<SpiError, PinError>(&self, enable: bool) -> (operation: Operation<
        SpiError,
        PinError,
    >)
        ensures
            operation@ == Call::Int1EnableClick(enable).begin::<SpiError, PinError>(),
            operation@.wf(),
    {
        let script: Vec<RegOp> = vec![
            reg_xset_bits(Register::INT1_CFG, INT1_CFG_ENABLE_CLICK, enable),
        ];
        assert(script@ =~= Call::Int1EnableClick(enable).script());
        Operation::start(script, Finish::Nothing)
    }

    /// `CLICK` interrupt on `INT1` pin,
    /// `CTRL_REG3`: `I1_CLICK`
    pub fn enable_i1_click<SpiError, PinError>(&self, enable: bool) -> (operation: Operation<
        SpiError,
        PinError,
    >)
        ensures
            operation@ == Call::EnableI1Click(enable).begin::<SpiError, PinError>(),
            operation@.wf(),
    {
        let script: Vec<RegOp> = vec![reg_xset_bits(Register::CTRL_REG3, I1_CLICK, enable)];
        assert(script@ =~= Call::EnableI1Click(enable).script());
        Operation::start(script, Finish::Nothing)
    }

    /// Latch interrupt request on INT1_SRC (31h),
    /// with INT1_SRC (31h) register cleared by reading INT1_SRC (31h) itself,
    /// `CTRL_REG5`: `LIR_INT1`
    pub fn enable_lir_int1<SpiError, PinError>(&self, latch: bool) -> (operation: Operation<
        SpiError,
        PinError,
    >)
        ensures
            operation@ == Call::EnableLirInt1(latch).begin::<SpiError, PinError>(),
            operation@.wf(),
    {
        let script: Vec<RegOp> = vec![reg_xset_bits(Register::CTRL_REG5, LIR_INT1, latch)];
        assert(script@ =~= Call::EnableLirInt1(latch).script());
        Operation::start(script, Finish::Nothing)
    }

    /// INT1/INT2 pin polarity,
    /// `CTRL_REG6`: `INT_POLARITY`
    pub fn set_int_polarity<SpiError, PinError>(&self, active_low: bool) -> (operation: Operation<
        SpiError,
        PinError,
    >)
        ensures
            operation@ == Call::SetIntPolarity(active_low).begin::<SpiError, PinError>(),
            operation@.wf(),
    {
        let script: Vec<RegOp> = vec![
            reg_xset_bits(Register::CTRL_REG6, INT_POLARITY, active_low),
        ];
        assert(script@ =~= Call::SetIntPolarity(active_low).script());
        Operation::start(script, Finish::Nothing)
    }

    /// Click threshold,
    /// `CLICK_THS`: `Ths`
    ///
    /// The threshold is cut to its seven bits and put into the low seven
    /// bits of the register; bit 7 of the register is kept.
    pub fn set_click_ths<SpiError, PinError>(&self, ths: u8) -> (operation: Operation<
        SpiError,
        PinError,
    >)
        ensures
            operation@ == Call::SetClickThs(ths).begin::<SpiError, PinError>(),
            operation@.wf(),
    {
        let script: Vec<RegOp> = vec![
            modify_reg(Register::CLICK_THS, Patch { clear: THS_MASK, set: ths & THS_MASK }),
        ];
        assert(script@ =~= Call::SetClickThs(ths).script());
        Operation::start(script, Finish::Nothing)
    }

    /// Takes the reply to the operation's pending action and moves the
    /// operation on. When a call that selects a full-scale range ends well,
    /// the handle takes that range; in every other case it keeps its own.
    pub fn resume<SpiError, PinError>(
        &mut self,
        operation: Operation<SpiError, PinError>,
        reply: Reply<SpiError, PinError>,
    ) -> (step: Step<SpiError, PinError>)
        ensures
            operation@.wf(),
            step@.wf(),
            step@ == operation@.step(old(self)@.scale, reply),
            final(self)@ == (Lis2dh12Model {
                scale: operation@.scale_after(old(self)@.scale, reply),
                ..old(self)@
            }),
    {
        let selected = operation.selects();
        let step = operation.advance(self.scale, reply);
        match &step {
            Step::Done(Ok(_)) => match selected {
                Some(scale) => {
                    self.scale = scale;
                },
                None => {},
            },
            _ => {},
        }
        step
    }
}

} // verus!
