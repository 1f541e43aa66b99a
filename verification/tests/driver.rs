use lis2dh12::{
    Action, Aoi6d, Axes, DataStatus, Error, Exchange, FullScaleSelection, LPen, Lis2dh12,
    OperatingMode, Operation, Output, OutputDataRate, Progress, Register, Reply, Step, Xen, Yen,
    Zen, BDU, HR, I1_CLICK, INT_POLARITY, LIR_INT1, TEMP_EN, XD, XS, YD, YS, ZD, ZS,
};

#[derive(Debug, Clone, Copy, PartialEq, Eq)]
struct SpiFault(usize);

#[derive(Debug, Clone, Copy, PartialEq, Eq)]
struct PinFault(usize);

type Op = Operation<SpiFault, PinFault>;
type Outcome = Result<Output, Error<SpiFault, PinFault>>;

#[derive(Debug, Clone, Copy, PartialEq, Eq)]
enum Listening {
    Idle,
    Command,
    Reading,
    Writing,
}

/// A register file behind a chip-select line, which records what it is asked
/// to do and fails where it is told to.
struct Bus {
    registers: [u8; 64],
    listening: Listening,
    cursor: u8,
    advancing: bool,
    log: Vec<Action>,
    fail: Vec<usize>,
    low: bool,
    falls: usize,
    rises: usize,
}

impl Bus {
    fn new() -> Self {
        Bus {
            registers: [0; 64],
            listening: Listening::Idle,
            cursor: 0,
            advancing: false,
            log: Vec::new(),
            fail: Vec::new(),
            low: false,
            falls: 0,
            rises: 0,
        }
    }

    fn failing_at(index: usize) -> Self {
        let mut bus = Bus::new();
        bus.fail.push(index);
        bus
    }

    fn get(&self, register: Register) -> u8 {
        self.registers[register.addr() as usize]
    }

    fn set(&mut self, register: Register, value: u8) {
        self.registers[register.addr() as usize] = value;
    }

    fn step_cursor(&mut self) {
        if self.advancing {
            self.cursor = (self.cursor + 1) % 64;
        }
    }

    fn perform(&mut self, action: Action) -> Reply<SpiFault, PinFault> {
        let index = self.log.len();
        self.log.push(action);
        if self.fail.contains(&index) {
            return match action {
                Action::Select | Action::Deselect => Reply::PinFailed(PinFault(index)),
                Action::Send(_) | Action::Receive => Reply::SpiFailed(SpiFault(index)),
            };
        }
        match action {
            Action::Select => {
                if !self.low {
                    self.falls += 1;
                }
                self.low = true;
                self.listening = Listening::Command;
                Reply::Done
            }
            Action::Deselect => {
                if self.low {
                    self.rises += 1;
                }
                self.low = false;
                self.listening = Listening::Idle;
                Reply::Done
            }
            Action::Send(byte) => {
                assert!(self.low, "a byte was sent while chip-select was high");
                match self.listening {
                    Listening::Command => {
                        self.cursor = byte & 0x3F;
                        self.advancing = byte & 0x40 != 0;
                        self.listening = if byte & 0x80 != 0 {
                            Listening::Reading
                        } else {
                            Listening::Writing
                        };
                    }
                    Listening::Writing => {
                        self.registers[self.cursor as usize] = byte;
                        self.step_cursor();
                    }
                    _ => {}
                }
                Reply::Done
            }
            Action::Receive => {
                assert!(self.low, "a byte was received while chip-select was high");
                match self.listening {
                    Listening::Reading => {
                        let byte = self.registers[self.cursor as usize];
                        self.step_cursor();
                        Reply::Byte(byte)
                    }
                    _ => Reply::Byte(0),
                }
            }
        }
    }
}

fn device() -> Lis2dh12<(), ()> {
    Lis2dh12::new((), ())
}

fn run(mut operation: Op, device: &mut Lis2dh12<(), ()>, bus: &mut Bus) -> Outcome {
    loop {
        let reply = bus.perform(operation.pending());
        match device.resume(operation, reply) {
            Step::Next(next) => operation = next,
            Step::Done(result) => return result,
        }
    }
}

fn transact(
    mut exchange: Exchange<SpiFault, PinFault>,
    bus: &mut Bus,
) -> Result<Vec<u8>, Error<SpiFault, PinFault>> {
    loop {
        let reply = bus.perform(exchange.pending());
        match exchange.resume(reply) {
            Progress::Next(next) => exchange = next,
            Progress::Done(result) => return result,
        }
    }
}

fn read_of(register: Register) -> Vec<Action> {
    vec![
        Action::Select,
        Action::Send(0x80 | register.addr()),
        Action::Receive,
        Action::Deselect,
    ]
}

fn write_of(register: Register, value: u8) -> Vec<Action> {
    vec![
        Action::Select,
        Action::Send(register.addr()),
        Action::Send(value),
        Action::Deselect,
    ]
}

fn burst_of(register: Register, count: usize) -> Vec<Action> {
    let mut actions = vec![Action::Select, Action::Send(0xC0 | register.addr())];
    for _ in 0..count {
        actions.push(Action::Receive);
    }
    actions.push(Action::Deselect);
    actions
}

fn modify_of(register: Register, written: u8) -> Vec<Action> {
    let mut actions = read_of(register);
    actions.extend(write_of(register, written));
    actions
}

const REGISTERS: [Register; 38] = [
    Register::STATUS_REG_AUX,
    Register::OUT_TEMP_L,
    Register::OUT_TEMP_H,
    Register::WHO_AM_I,
    Register::CTRL_REG0,
    Register::TEMP_CFG_REG,
    Register::CTRL_REG1,
    Register::CTRL_REG2,
    Register::CTRL_REG3,
    Register::CTRL_REG4,
    Register::CTRL_REG5,
    Register::CTRL_REG6,
    Register::REFERENCE,
    Register::STATUS_REG,
    Register::OUT_X_L,
    Register::OUT_X_H,
    Register::OUT_Y_L,
    Register::OUT_Y_H,
    Register::OUT_Z_L,
    Register::OUT_Z_H,
    Register::FIFO_CTRL_REG,
    Register::FIFO_SRC_REG,
    Register::INT1_CFG,
    Register::INT1_SRC,
    Register::INT1_THS,
    Register::INT1_DURATION,
    Register::INT2_CFG,
    Register::INT2_SRC,
    Register::INT2_THS,
    Register::INT2_DURATION,
    Register::CLICK_CFG,
    Register::CLICK_SRC,
    Register::CLICK_THS,
    Register::TIME_LIMIT,
    Register::TIME_LATENCY,
    Register::TIME_WINDOW,
    Register::ACT_THS,
    Register::ACT_DUR,
];

const RATES: [OutputDataRate; 10] = [
    OutputDataRate::PowerDown,
    OutputDataRate::Hz1,
    OutputDataRate::Hz10,
    OutputDataRate::Hz25,
    OutputDataRate::Hz50,
    OutputDataRate::Hz100,
    OutputDataRate::Hz200,
    OutputDataRate::Hz400,
    OutputDataRate::HighRate0,
    OutputDataRate::HighRate1,
];

/// Every call of the driver, by number.
fn call(device: &Lis2dh12<(), ()>, number: usize) -> Op {
    match number {
        0 => device.check_who_am_i(),
        1 => device.get_device_id(),
        2 => device.set_bdu(true),
        3 => device.set_bdu(false),
        4 => device.enable_temp(true),
        5 => device.enable_temp(false),
        6 => device.set_output_data_rate(OutputDataRate::PowerDown),
        7 => device.set_output_data_rate(OutputDataRate::Hz100),
        8 => device.get_ref(),
        9 => device.set_operating_mode(OperatingMode::LowPower),
        10 => device.set_operating_mode(OperatingMode::Normal),
        11 => device.set_operating_mode(OperatingMode::HighResolution),
        12 => device.get_raw(),
        13 => device.set_scale(FullScaleSelection::PlusMinus8G),
        14 => device.enable_axis((true, false, true)),
        15 => device.get_norm(),
        16 => device.get_status(),
        17 => device.get_temperature_raw(),
        18 => device.get_temperature_raw_foo(),
        19 => device.get_temperature_c(),
        20 => device.enable_double_click((true, true, false)),
        21 => device.int1_set_mode(Aoi6d::And),
        22 => device.int1_enable_click(true),
        23 => device.enable_i1_click(true),
        24 => device.enable_lir_int1(true),
        25 => device.enable_single_click((false, true, true)),
        26 => device.set_int_polarity(true),
        _ => device.set_click_ths(0xFF),
    }
}

const CALLS: usize = 28;

// ---- command bytes ----

#[test]
fn single_read_command_is_0x80_or_address() {
    for register in REGISTERS {
        let mut bus = Bus::new();
        transact(Exchange::read_reg(register), &mut bus).unwrap();
        assert_eq!(bus.log, read_of(register));
        assert_eq!(bus.log[1], Action::Send(0x80 | register.addr()));
    }
}

#[test]
fn burst_read_command_is_0xc0_or_address() {
    for register in REGISTERS {
        let mut bus = Bus::new();
        transact(Exchange::read_regs(register, 3), &mut bus).unwrap();
        assert_eq!(bus.log, burst_of(register, 3));
        assert_eq!(bus.log[1], Action::Send(0xC0 | register.addr()));
    }
}

#[test]
fn write_command_is_the_address() {
    for register in REGISTERS {
        let mut bus = Bus::new();
        transact(Exchange::write_reg(register, 0x5A), &mut bus).unwrap();
        assert_eq!(bus.log, write_of(register, 0x5A));
        assert_eq!(bus.log[1], Action::Send(register.addr()));
    }
}

#[test]
fn command_bytes_of_the_identity_register() {
    let mut bus = Bus::new();
    transact(Exchange::read_reg(Register::WHO_AM_I), &mut bus).unwrap();
    assert_eq!(bus.log[1], Action::Send(0x8F));
    let mut bus = Bus::new();
    transact(Exchange::read_regs(Register::WHO_AM_I, 1), &mut bus).unwrap();
    assert_eq!(bus.log[1], Action::Send(0xCF));
    let mut bus = Bus::new();
    transact(Exchange::write_reg(Register::WHO_AM_I, 0), &mut bus).unwrap();
    assert_eq!(bus.log[1], Action::Send(0x0F));
}

// ---- round trip ----

#[test]
fn what_is_written_is_read_back() {
    for register in REGISTERS {
        for value in [0x00u8, 0x01, 0x33, 0x7F, 0x80, 0xA5, 0xFF] {
            let mut bus = Bus::new();
            let written = transact(Exchange::write_reg(register, value), &mut bus).unwrap();
            assert_eq!(written, Vec::<u8>::new());
            let read = transact(Exchange::read_reg(register), &mut bus).unwrap();
            assert_eq!(read, vec![value]);
        }
    }
}

#[test]
fn burst_read_hands_back_consecutive_registers_in_order() {
    let mut bus = Bus::new();
    for (i, register) in [
        Register::OUT_X_L,
        Register::OUT_X_H,
        Register::OUT_Y_L,
        Register::OUT_Y_H,
        Register::OUT_Z_L,
        Register::OUT_Z_H,
    ]
    .into_iter()
    .enumerate()
    {
        bus.set(register, 0x10 + i as u8);
    }
    let bytes = transact(Exchange::read_regs(Register::OUT_X_L, 6), &mut bus).unwrap();
    assert_eq!(bytes, vec![0x10, 0x11, 0x12, 0x13, 0x14, 0x15]);
}

#[test]
fn burst_read_of_nothing_is_a_bare_command() {
    let mut bus = Bus::new();
    let bytes = transact(Exchange::read_regs(Register::OUT_X_L, 0), &mut bus).unwrap();
    assert_eq!(bytes, Vec::<u8>::new());
    assert_eq!(
        bus.log,
        vec![Action::Select, Action::Send(0xE8), Action::Deselect]
    );
}

// ---- scale ----

#[test]
fn a_new_handle_scales_by_two_g() {
    assert_eq!(device().scale(), FullScaleSelection::PlusMinus2G);
}

#[test]
fn destroy_gives_the_parts_back() {
    let handle = Lis2dh12::new(7u8, "pin");
    assert_eq!(handle.destroy(), (7u8, "pin"));
}

#[test]
fn bus_lends_the_parts() {
    let mut handle = Lis2dh12::new(1u8, 2u16);
    {
        let (spi, cs) = handle.bus();
        *spi += 10;
        *cs += 20;
    }
    assert_eq!(handle.scale(), FullScaleSelection::PlusMinus2G);
    assert_eq!(handle.destroy(), (11u8, 22u16));
}

#[test]
fn four_g_reading_of_4096_is_0_512_g() {
    let mut device = device();
    let mut bus = Bus::new();
    let selected = run(device.set_scale(FullScaleSelection::PlusMinus4G), &mut device, &mut bus);
    assert!(matches!(selected, Ok(Output::Unit)));
    assert_eq!(device.scale(), FullScaleSelection::PlusMinus4G);
    // 4096 = 0x1000, low byte first
    bus.set(Register::OUT_X_L, 0x00);
    bus.set(Register::OUT_X_H, 0x10);
    let reading = match run(device.get_norm(), &mut device, &mut bus) {
        Ok(Output::Norm(reading)) => reading,
        other => panic!("unexpected {:?}", other),
    };
    assert_eq!(reading.counts, Axes { x: 256, y: 0, z: 0 });
    assert_eq!(reading.milli_g, Axes { x: 512, y: 0, z: 0 });
    assert_eq!(reading.scale, FullScaleSelection::PlusMinus4G);
    let sensitivity = reading.scale.sensitivity() as f32 / 1000.0;
    assert_eq!(sensitivity, 0.002f32);
    assert_eq!(reading.counts.x as f32 * sensitivity, 0.512f32);
    assert_eq!(reading.milli_g.x as f32 / 1000.0, 0.512f32);
}

#[test]
fn set_scale_writes_the_field_and_keeps_the_other_bits() {
    for (fs, code) in [
        (FullScaleSelection::PlusMinus2G, 0u8),
        (FullScaleSelection::PlusMinus4G, 1),
        (FullScaleSelection::PlusMinus8G, 2),
        (FullScaleSelection::PlusMinus16G, 3),
    ] {
        let mut device = device();
        let mut bus = Bus::new();
        bus.set(Register::CTRL_REG4, 0b1011_1001);
        let result = run(device.set_scale(fs), &mut device, &mut bus);
        assert!(matches!(result, Ok(Output::Unit)));
        assert_eq!(bus.get(Register::CTRL_REG4), 0b1000_1001 | (code << 4));
        assert_eq!(
            bus.log,
            modify_of(Register::CTRL_REG4, 0b1000_1001 | (code << 4))
        );
        assert_eq!(device.scale(), fs);
    }
}

#[test]
fn a_failed_set_scale_leaves_the_handle_as_it_was() {
    for at in 0..8 {
        let mut device = device();
        let mut bus = Bus::failing_at(at);
        let result = run(device.set_scale(FullScaleSelection::PlusMinus16G), &mut device, &mut bus);
        assert!(result.is_err());
        assert_eq!(device.scale(), FullScaleSelection::PlusMinus2G);
    }
}

#[test]
fn every_range_scales_by_its_sensitivity() {
    for (fs, per_count) in [
        (FullScaleSelection::PlusMinus2G, 1i16),
        (FullScaleSelection::PlusMinus4G, 2),
        (FullScaleSelection::PlusMinus8G, 4),
        (FullScaleSelection::PlusMinus16G, 12),
    ] {
        let mut device = device();
        let mut bus = Bus::new();
        run(device.set_scale(fs), &mut device, &mut bus).unwrap();
        // x = 0x7FF0 (count 2047), y = 0x8000 (count -2048), z = 0xFFF0 (count -1)
        bus.set(Register::OUT_X_L, 0xF0);
        bus.set(Register::OUT_X_H, 0x7F);
        bus.set(Register::OUT_Y_L, 0x00);
        bus.set(Register::OUT_Y_H, 0x80);
        bus.set(Register::OUT_Z_L, 0xF0);
        bus.set(Register::OUT_Z_H, 0xFF);
        let reading = match run(device.get_norm(), &mut device, &mut bus) {
            Ok(Output::Norm(reading)) => reading,
            other => panic!("unexpected {:?}", other),
        };
        assert_eq!(reading.counts, Axes { x: 2047, y: -2048, z: -1 });
        assert_eq!(
            reading.milli_g,
            Axes { x: 2047 * per_count, y: -2048 * per_count, z: -per_count }
        );
    }
}

// ---- output data rate ----

#[test]
fn power_down_reads_the_reference_register_once() {
    let mut device = device();
    let mut bus = Bus::new();
    bus.set(Register::CTRL_REG1, 0b0101_0111);
    let result = run(device.set_output_data_rate(OutputDataRate::PowerDown), &mut device, &mut bus);
    assert!(matches!(result, Ok(Output::Unit)));
    let mut expected = modify_of(Register::CTRL_REG1, 0b0000_0111);
    expected.extend(read_of(Register::REFERENCE));
    assert_eq!(bus.log, expected);
    let reads = bus
        .log
        .iter()
        .filter(|action| **action == Action::Send(0x80 | 0x26))
        .count();
    assert_eq!(reads, 1);
}

#[test]
fn no_other_rate_reads_the_reference_register() {
    for (code, odr) in RATES.into_iter().enumerate().skip(1) {
        let mut device = device();
        let mut bus = Bus::new();
        bus.set(Register::CTRL_REG1, 0b1111_0111);
        let result = run(device.set_output_data_rate(odr), &mut device, &mut bus);
        assert!(matches!(result, Ok(Output::Unit)));
        let written = ((code as u8) << 4) | 0b0111;
        assert_eq!(bus.log, modify_of(Register::CTRL_REG1, written));
        assert_eq!(bus.get(Register::CTRL_REG1), written);
        assert!(!bus.log.contains(&Action::Send(0x80 | 0x26)));
        assert!(!bus.log.contains(&Action::Send(0xC0 | 0x26)));
    }
}

#[test]
fn a_failed_rate_write_skips_the_reference_read() {
    for at in 0..8 {
        let mut device = device();
        let mut bus = Bus::failing_at(at);
        let result = run(device.set_output_data_rate(OutputDataRate::PowerDown), &mut device, &mut bus);
        assert!(result.is_err());
        assert!(!bus.log.contains(&Action::Send(0x80 | 0x26)));
    }
}

// ---- identity ----

#[test]
fn identity_check_succeeds_on_0x33() {
    let mut device = device();
    let mut bus = Bus::new();
    bus.set(Register::WHO_AM_I, 0x33);
    let result = run(device.check_who_am_i(), &mut device, &mut bus);
    assert!(matches!(result, Ok(Output::Unit)));
    assert_eq!(bus.log, read_of(Register::WHO_AM_I));
    assert_eq!(
        bus.log,
        vec![
            Action::Select,
            Action::Send(0x8F),
            Action::Receive,
            Action::Deselect
        ]
    );
}

#[test]
fn identity_check_asks_the_bus_what_a_read_of_the_identity_asks() {
    for at in 0..5 {
        let mut device = device();
        let mut checked = Bus::failing_at(at);
        checked.set(Register::WHO_AM_I, 0x33);
        let _ = run(device.check_who_am_i(), &mut device, &mut checked);
        let mut read = Bus::failing_at(at);
        read.set(Register::WHO_AM_I, 0x33);
        let _ = run(device.get_device_id(), &mut device, &mut read);
        assert_eq!(checked.log, read.log);
    }
}

#[test]
fn identity_check_fails_on_every_other_byte_and_carries_it() {
    for byte in 0..=255u8 {
        if byte == 0x33 {
            continue;
        }
        let mut device = device();
        let mut bus = Bus::new();
        bus.set(Register::WHO_AM_I, byte);
        match run(device.check_who_am_i(), &mut device, &mut bus) {
            Err(Error::InvalidWhoAmI(found)) => assert_eq!(found, byte),
            other => panic!("unexpected {:?}", other),
        }
    }
}

#[test]
fn identity_check_reports_bus_failures_as_such() {
    let mut device = device();
    let mut bus = Bus::failing_at(0);
    bus.set(Register::WHO_AM_I, 0x33);
    let result = run(device.check_who_am_i(), &mut device, &mut bus);
    assert!(matches!(result, Err(Error::Pin(PinFault(0)))));
    assert_eq!(bus.log, vec![Action::Select]);

    let mut bus = Bus::failing_at(1);
    bus.set(Register::WHO_AM_I, 0x33);
    let result = run(device.check_who_am_i(), &mut device, &mut bus);
    assert!(matches!(result, Err(Error::Spi(SpiFault(1)))));
    assert_eq!(
        bus.log,
        vec![Action::Select, Action::Send(0x8F), Action::Deselect]
    );

    let mut bus = Bus::failing_at(2);
    bus.set(Register::WHO_AM_I, 0x33);
    let result = run(device.check_who_am_i(), &mut device, &mut bus);
    assert!(matches!(result, Err(Error::Spi(SpiFault(2)))));
    assert_eq!(bus.log, read_of(Register::WHO_AM_I));

    let mut bus = Bus::failing_at(3);
    bus.set(Register::WHO_AM_I, 0x33);
    let result = run(device.check_who_am_i(), &mut device, &mut bus);
    assert!(matches!(result, Err(Error::Pin(PinFault(3)))));
    assert_eq!(bus.log, read_of(Register::WHO_AM_I));
}

#[test]
fn device_id_is_the_byte_of_the_identity_register() {
    let mut device = device();
    let mut bus = Bus::new();
    bus.set(Register::WHO_AM_I, 0x42);
    let result = run(device.get_device_id(), &mut device, &mut bus);
    assert!(matches!(result, Ok(Output::Byte(0x42))));
    assert_eq!(bus.log, read_of(Register::WHO_AM_I));
}

#[test]
fn get_ref_reads_the_reference_register() {
    let mut device = device();
    let mut bus = Bus::new();
    bus.set(Register::REFERENCE, 0x9C);
    let result = run(device.get_ref(), &mut device, &mut bus);
    assert!(matches!(result, Ok(Output::Byte(0x9C))));
    assert_eq!(bus.log, read_of(Register::REFERENCE));
}

// ---- temperature ----

#[test]
fn temperature_of_0x00_0xc0_is_25_75() {
    let mut device = device();
    let mut bus = Bus::new();
    bus.set(Register::OUT_TEMP_L, 0xC0);
    bus.set(Register::OUT_TEMP_H, 0x00);
    let reading = match run(device.get_temperature_c(), &mut device, &mut bus) {
        Ok(Output::Temperature(reading)) => reading,
        other => panic!("unexpected {:?}", other),
    };
    assert_eq!(reading.counts, 3);
    assert_eq!(reading.counts, ((0x00i16 << 8) | 0xC0) >> 6);
    assert_eq!(reading.centi_celsius, 2575);
    assert_eq!(reading.counts as f32 * 0.25 + 25.0, 25.75f32);
    assert_eq!(reading.centi_celsius as f32 / 100.0, 25.75f32);
    assert_eq!(bus.log, burst_of(Register::OUT_TEMP_L, 2));
}

#[test]
fn temperature_below_the_midpoint() {
    let mut device = device();
    let mut bus = Bus::new();
    // high byte -1, low byte 0x40: the word 0xFF40 shifted down by six is -3
    bus.set(Register::OUT_TEMP_L, 0x40);
    bus.set(Register::OUT_TEMP_H, 0xFF);
    let reading = match run(device.get_temperature_c(), &mut device, &mut bus) {
        Ok(Output::Temperature(reading)) => reading,
        other => panic!("unexpected {:?}", other),
    };
    assert_eq!(reading.counts, -3);
    assert_eq!(reading.centi_celsius, 2425);
}

#[test]
fn temperature_bytes_come_high_byte_first() {
    let mut device = device();
    let mut bus = Bus::new();
    bus.set(Register::OUT_TEMP_L, 0x40);
    bus.set(Register::OUT_TEMP_H, 0xFE);
    let raw = run(device.get_temperature_raw(), &mut device, &mut bus);
    assert!(matches!(raw, Ok(Output::TemperatureRaw(-2, 0x40))));
    let bytes = run(device.get_temperature_raw_foo(), &mut device, &mut bus);
    assert!(matches!(bytes, Ok(Output::TemperatureBytes(0xFE, 0x40))));
}

// ---- acquisition ----

#[test]
fn raw_axes_are_little_endian_and_signed() {
    let mut device = device();
    let mut bus = Bus::new();
    bus.set(Register::OUT_X_L, 0x34);
    bus.set(Register::OUT_X_H, 0x12);
    bus.set(Register::OUT_Y_L, 0xFF);
    bus.set(Register::OUT_Y_H, 0xFF);
    bus.set(Register::OUT_Z_L, 0x00);
    bus.set(Register::OUT_Z_H, 0x80);
    let result = run(device.get_raw(), &mut device, &mut bus);
    match result {
        Ok(Output::Raw(raw)) => assert_eq!(raw, Axes { x: 0x1234, y: -1, z: -32768 }),
        other => panic!("unexpected {:?}", other),
    }
    assert_eq!(bus.log, burst_of(Register::OUT_X_L, 6));
}

#[test]
fn status_flags_follow_their_bits() {
    let mut device = device();
    let mut bus = Bus::new();
    bus.set(Register::STATUS_REG, 0b1010_0101);
    let result = run(device.get_status(), &mut device, &mut bus);
    match result {
        Ok(Output::Status(status)) => assert_eq!(
            status,
            DataStatus {
                zyxor: true,
                xyzor: (false, true, false),
                zyxda: false,
                xyzda: (true, false, true),
            }
        ),
        other => panic!("unexpected {:?}", other),
    }
    assert_eq!(bus.log, read_of(Register::STATUS_REG));
}

// ---- configuration ----

#[test]
fn low_power_clears_hr_then_sets_lpen() {
    let mut device = device();
    let mut bus = Bus::new();
    bus.set(Register::CTRL_REG4, 0xFF);
    bus.set(Register::CTRL_REG1, 0x00);
    run(device.set_operating_mode(OperatingMode::LowPower), &mut device, &mut bus)
    .unwrap();
    let mut expected = modify_of(Register::CTRL_REG4, 0xFF & !HR);
    expected.extend(modify_of(Register::CTRL_REG1, LPen));
    assert_eq!(bus.log, expected);
    assert_eq!(bus.get(Register::CTRL_REG4), 0xF7);
    assert_eq!(bus.get(Register::CTRL_REG1), 0x08);
}

#[test]
fn normal_mode_clears_lpen_then_hr() {
    let mut device = device();
    let mut bus = Bus::new();
    bus.set(Register::CTRL_REG4, 0xFF);
    bus.set(Register::CTRL_REG1, 0xFF);
    run(device.set_operating_mode(OperatingMode::Normal), &mut device, &mut bus)
    .unwrap();
    let mut expected = modify_of(Register::CTRL_REG1, 0xF7);
    expected.extend(modify_of(Register::CTRL_REG4, 0xF7));
    assert_eq!(bus.log, expected);
}

#[test]
fn high_resolution_clears_lpen_then_sets_hr() {
    let mut device = device();
    let mut bus = Bus::new();
    bus.set(Register::CTRL_REG4, 0x00);
    bus.set(Register::CTRL_REG1, 0xFF);
    run(device.set_operating_mode(OperatingMode::HighResolution), &mut device, &mut bus)
    .unwrap();
    let mut expected = modify_of(Register::CTRL_REG1, 0xF7);
    expected.extend(modify_of(Register::CTRL_REG4, 0x08));
    assert_eq!(bus.log, expected);
}

#[test]
fn a_failure_in_the_first_register_leaves_the_second_alone() {
    for at in 0..8 {
        let mut device = device();
        let mut bus = Bus::failing_at(at);
        bus.set(Register::CTRL_REG4, 0x00);
        let result = run(device.set_operating_mode(OperatingMode::HighResolution), &mut device, &mut bus);
        assert!(result.is_err());
        assert_eq!(bus.get(Register::CTRL_REG4), 0x00);
        assert!(!bus.log.contains(&Action::Send(Register::CTRL_REG4.addr())));
    }
}

#[test]
fn enabling_the_temperature_sensor_forces_block_data_update() {
    let mut device = device();
    let mut bus = Bus::new();
    run(device.enable_temp(true), &mut device, &mut bus).unwrap();
    assert_eq!(bus.get(Register::TEMP_CFG_REG), TEMP_EN);
    assert_eq!(bus.get(Register::CTRL_REG4), BDU);
    let mut expected = modify_of(Register::TEMP_CFG_REG, 0xC0);
    expected.extend(modify_of(Register::CTRL_REG4, 0x80));
    assert_eq!(bus.log, expected);
}

#[test]
fn disabling_the_temperature_sensor_leaves_block_data_update() {
    let mut device = device();
    let mut bus = Bus::new();
    bus.set(Register::TEMP_CFG_REG, 0xFF);
    bus.set(Register::CTRL_REG4, BDU);
    run(device.enable_temp(false), &mut device, &mut bus).unwrap();
    assert_eq!(bus.get(Register::TEMP_CFG_REG), 0x3F);
    assert_eq!(bus.get(Register::CTRL_REG4), BDU);
    assert_eq!(bus.log, modify_of(Register::TEMP_CFG_REG, 0x3F));
}

#[test]
fn set_bdu_sets_and_clears_the_bit() {
    let mut device = device();
    let mut bus = Bus::new();
    bus.set(Register::CTRL_REG4, 0x11);
    run(device.set_bdu(true), &mut device, &mut bus).unwrap();
    assert_eq!(bus.get(Register::CTRL_REG4), 0x91);
    run(device.set_bdu(false), &mut device, &mut bus).unwrap();
    assert_eq!(bus.get(Register::CTRL_REG4), 0x11);
}

#[test]
fn enable_axis_replaces_the_three_enable_bits() {
    let mut device = device();
    let mut bus = Bus::new();
    bus.set(Register::CTRL_REG1, 0b1111_1111);
    run(device.enable_axis((true, false, true)), &mut device, &mut bus).unwrap();
    assert_eq!(bus.get(Register::CTRL_REG1), 0b1111_1000 | Xen | Zen);
    run(device.enable_axis((false, true, false)), &mut device, &mut bus).unwrap();
    assert_eq!(bus.get(Register::CTRL_REG1), 0b1111_1000 | Yen);
    run(device.enable_axis((false, false, false)), &mut device, &mut bus).unwrap();
    assert_eq!(bus.get(Register::CTRL_REG1), 0b1111_1000);
    run(device.enable_axis((true, true, true)), &mut device, &mut bus).unwrap();
    assert_eq!(bus.get(Register::CTRL_REG1), 0b1111_1111);
}

#[test]
fn click_enables_replace_their_own_bits_only() {
    let mut device = device();
    let mut bus = Bus::new();
    bus.set(Register::CLICK_CFG, 0b1100_0000);
    run(device.enable_double_click((true, true, false)), &mut device, &mut bus).unwrap();
    assert_eq!(bus.get(Register::CLICK_CFG), 0b1100_0000 | XD | YD);
    run(device.enable_single_click((false, true, true)), &mut device, &mut bus).unwrap();
    assert_eq!(bus.get(Register::CLICK_CFG), 0b1100_0000 | XD | YD | YS | ZS);
    run(device.enable_double_click((false, false, true)), &mut device, &mut bus).unwrap();
    assert_eq!(bus.get(Register::CLICK_CFG), 0b1100_0000 | ZD | YS | ZS);
    run(device.enable_single_click((true, false, false)), &mut device, &mut bus).unwrap();
    assert_eq!(bus.get(Register::CLICK_CFG), 0b1100_0000 | ZD | XS);
}

#[test]
fn interrupt_mode_goes_to_the_top_two_bits() {
    for (mode, code) in [
        (Aoi6d::Or, 0u8),
        (Aoi6d::Movement6D, 1),
        (Aoi6d::And, 2),
        (Aoi6d::Position6D, 3),
    ] {
        let mut device = device();
        let mut bus = Bus::new();
        bus.set(Register::INT1_CFG, 0b0110_1010);
        run(device.int1_set_mode(mode), &mut device, &mut bus).unwrap();
        assert_eq!(bus.get(Register::INT1_CFG), 0b0010_1010 | (code << 6));
    }
}

#[test]
fn single_bit_switches() {
    let mut device = device();
    let mut bus = Bus::new();
    run(device.int1_enable_click(true), &mut device, &mut bus).unwrap();
    assert_eq!(bus.get(Register::INT1_CFG), 0b0011_1111);
    bus.set(Register::INT1_CFG, 0xFF);
    run(device.int1_enable_click(false), &mut device, &mut bus).unwrap();
    assert_eq!(bus.get(Register::INT1_CFG), 0b1100_0000);

    run(device.enable_i1_click(true), &mut device, &mut bus).unwrap();
    assert_eq!(bus.get(Register::CTRL_REG3), I1_CLICK);
    run(device.enable_i1_click(false), &mut device, &mut bus).unwrap();
    assert_eq!(bus.get(Register::CTRL_REG3), 0);

    run(device.enable_lir_int1(true), &mut device, &mut bus).unwrap();
    assert_eq!(bus.get(Register::CTRL_REG5), LIR_INT1);
    run(device.enable_lir_int1(false), &mut device, &mut bus).unwrap();
    assert_eq!(bus.get(Register::CTRL_REG5), 0);

    run(device.set_int_polarity(true), &mut device, &mut bus).unwrap();
    assert_eq!(bus.get(Register::CTRL_REG6), INT_POLARITY);
    run(device.set_int_polarity(false), &mut device, &mut bus).unwrap();
    assert_eq!(bus.get(Register::CTRL_REG6), 0);
}

#[test]
fn click_threshold_is_cut_to_seven_bits() {
    let mut device = device();
    let mut bus = Bus::new();
    run(device.set_click_ths(0xFF), &mut device, &mut bus).unwrap();
    assert_eq!(bus.get(Register::CLICK_THS), 0x7F);
    assert_eq!(bus.log, modify_of(Register::CLICK_THS, 0x7F));
    run(device.set_click_ths(0x85), &mut device, &mut bus).unwrap();
    assert_eq!(bus.get(Register::CLICK_THS), 0x05);
    run(device.set_click_ths(0x2A), &mut device, &mut bus).unwrap();
    assert_eq!(bus.get(Register::CLICK_THS), 0x2A);
}

#[test]
fn click_threshold_keeps_bit_seven_of_the_register() {
    for old in [0x00u8, 0x80, 0xFF, 0x7F, 0xC3] {
        for ths in [0x00u8, 0x01, 0x2A, 0x7F, 0x80, 0x85, 0xFF] {
            let mut device = device();
            let mut bus = Bus::new();
            bus.set(Register::CLICK_THS, old);
            let result = run(device.set_click_ths(ths), &mut device, &mut bus);
            assert!(matches!(result, Ok(Output::Unit)));
            assert_eq!(bus.get(Register::CLICK_THS), (old & 0x80) | (ths & 0x7F));
            assert_eq!(
                bus.log,
                modify_of(Register::CLICK_THS, (old & 0x80) | (ths & 0x7F))
            );
        }
    }
}

// ---- chip-select and failures ----

#[test]
fn every_call_brackets_each_transaction_when_nothing_fails() {
    for number in 0..CALLS {
        let mut device = device();
        let mut bus = Bus::new();
        bus.set(Register::WHO_AM_I, 0x33);
        let result = run(call(&device, number), &mut device, &mut bus);
        assert!(result.is_ok(), "call {}", number);
        let selects = bus.log.iter().filter(|a| **a == Action::Select).count();
        assert!(selects >= 1);
        assert_eq!(bus.falls, selects, "call {}", number);
        assert_eq!(bus.rises, selects, "call {}", number);
        assert!(!bus.low);
        assert_eq!(*bus.log.last().unwrap(), Action::Deselect);
    }
}

#[test]
fn every_call_releases_chip_select_when_a_transfer_fails() {
    for number in 0..CALLS {
        let mut clean = Bus::new();
        clean.set(Register::WHO_AM_I, 0x33);
        let mut device = device();
        run(call(&device, number), &mut device, &mut clean).unwrap();
        for (at, action) in clean.log.iter().enumerate() {
            if !matches!(action, Action::Send(_) | Action::Receive) {
                continue;
            }
            let mut bus = Bus::failing_at(at);
            bus.set(Register::WHO_AM_I, 0x33);
            let mut device = self::device();
            let result = run(call(&device, number), &mut device, &mut bus);
            assert!(
                matches!(result, Err(Error::Spi(SpiFault(found))) if found == at),
                "call {} failing at {}",
                number,
                at
            );
            // what was asked for: everything up to the failed transfer, then the release
            let mut expected = clean.log[..=at].to_vec();
            expected.push(Action::Deselect);
            assert_eq!(bus.log, expected);
            assert!(!bus.low);
            assert_eq!(bus.falls, bus.rises);
            // the transaction that failed went low once and high once
            let last_select = bus.log.iter().rposition(|a| *a == Action::Select).unwrap();
            let after = &bus.log[last_select..];
            assert_eq!(after.iter().filter(|a| **a == Action::Select).count(), 1);
            assert_eq!(after.iter().filter(|a| **a == Action::Deselect).count(), 1);
        }
    }
}

#[test]
fn a_failed_select_ends_the_call_at_once() {
    for number in 0..CALLS {
        let mut device = device();
        let mut bus = Bus::failing_at(0);
        let result = run(call(&device, number), &mut device, &mut bus);
        assert!(matches!(result, Err(Error::Pin(PinFault(0)))));
        assert_eq!(bus.log, vec![Action::Select]);
        assert_eq!(bus.falls, 0);
        assert_eq!(bus.rises, 0);
    }
}

#[test]
fn a_failed_release_is_the_error_when_nothing_failed_before() {
    let mut bus = Bus::failing_at(3);
    let result = transact(Exchange::read_reg(Register::STATUS_REG), &mut bus);
    assert!(matches!(result, Err(Error::Pin(PinFault(3)))));
    assert_eq!(bus.log, read_of(Register::STATUS_REG));
}

#[test]
fn the_first_failure_wins_over_a_failed_release() {
    let mut bus = Bus::new();
    bus.fail = vec![2, 3];
    let result = transact(Exchange::read_reg(Register::STATUS_REG), &mut bus);
    assert!(matches!(result, Err(Error::Spi(SpiFault(2)))));
    assert_eq!(bus.log, read_of(Register::STATUS_REG));

    let mut bus = Bus::new();
    bus.fail = vec![1, 2];
    let result = transact(Exchange::write_reg(Register::CTRL_REG1, 0xAA), &mut bus);
    assert!(matches!(result, Err(Error::Spi(SpiFault(1)))));
    assert_eq!(
        bus.log,
        vec![Action::Select, Action::Send(0x20), Action::Deselect]
    );
    assert_eq!(bus.get(Register::CTRL_REG1), 0);
}

#[test]
fn a_burst_that_fails_midway_hands_back_no_bytes() {
    for at in 2..8 {
        let mut bus = Bus::failing_at(at);
        for register in [Register::OUT_X_L, Register::OUT_X_H, Register::OUT_Y_L] {
            bus.set(register, 0xEE);
        }
        let result = transact(Exchange::read_regs(Register::OUT_X_L, 6), &mut bus);
        assert!(matches!(result, Err(Error::Spi(SpiFault(found))) if found == at));
        let mut expected = burst_of(Register::OUT_X_L, 6)[..=at].to_vec();
        expected.push(Action::Deselect);
        assert_eq!(bus.log, expected);
    }
    let mut device = device();
    let mut bus = Bus::failing_at(5);
    let result = run(device.get_raw(), &mut device, &mut bus);
    assert!(matches!(result, Err(Error::Spi(SpiFault(5)))));
}

/// The calls of one transaction.
const SINGLE: [usize; 9] = [0, 1, 8, 12, 15, 16, 17, 18, 19];

fn pin_actions(log: &[Action]) -> Vec<Action> {
    log.iter()
        .copied()
        .filter(|action| matches!(action, Action::Select | Action::Deselect))
        .collect()
}

#[test]
fn a_call_of_one_transaction_drives_the_pin_low_once_and_high_once() {
    for number in SINGLE {
        let mut clean = Bus::new();
        clean.set(Register::WHO_AM_I, 0x33);
        let mut device = device();
        run(call(&device, number), &mut device, &mut clean).unwrap();
        assert_eq!(
            pin_actions(&clean.log),
            vec![Action::Select, Action::Deselect],
            "call {}",
            number
        );
        for (at, action) in clean.log.iter().enumerate() {
            if !matches!(action, Action::Send(_) | Action::Receive) {
                continue;
            }
            let mut bus = Bus::failing_at(at);
            bus.set(Register::WHO_AM_I, 0x33);
            let result = run(call(&device, number), &mut device, &mut bus);
            assert!(result.is_err());
            assert_eq!(
                pin_actions(&bus.log),
                vec![Action::Select, Action::Deselect],
                "call {} failing at {}",
                number,
                at
            );
            assert_eq!(bus.log[0], Action::Select);
            assert_eq!(*bus.log.last().unwrap(), Action::Deselect);
        }
    }
}

#[test]
fn every_call_drives_the_pin_low_and_high_in_turn() {
    for number in 0..CALLS {
        let mut clean = Bus::new();
        clean.set(Register::WHO_AM_I, 0x33);
        let mut device = device();
        run(call(&device, number), &mut device, &mut clean).unwrap();
        for at in 0..clean.log.len() {
            let mut bus = Bus::failing_at(at);
            bus.set(Register::WHO_AM_I, 0x33);
            let _ = run(call(&device, number), &mut device, &mut bus);
            for (i, action) in pin_actions(&bus.log).into_iter().enumerate() {
                let expected = if i % 2 == 0 {
                    Action::Select
                } else {
                    Action::Deselect
                };
                assert_eq!(action, expected, "call {} failing at {}", number, at);
            }
        }
    }
}

#[test]
fn a_reply_without_a_byte_counts_as_zero() {
    let exchange: Exchange<SpiFault, PinFault> = Exchange::read_reg(Register::STATUS_REG);
    let mut exchange = exchange;
    for _ in 0..3 {
        exchange = match exchange.resume(Reply::Done) {
            Progress::Next(next) => next,
            Progress::Done(_) => panic!("ended early"),
        };
    }
    assert_eq!(exchange.pending(), Action::Deselect);
    match exchange.resume(Reply::Done) {
        Progress::Done(Ok(bytes)) => assert_eq!(bytes, vec![0]),
        _ => panic!("did not end"),
    }
}

#[test]
fn holds_select_follows_the_line_through_every_call() {
    for number in 0..CALLS {
        let mut device = device();
        let mut bus = Bus::new();
        bus.set(Register::WHO_AM_I, 0x33);
        let mut operation = call(&device, number);
        loop {
            assert_eq!(operation.holds_select(), bus.low, "call {}", number);
            let reply = bus.perform(operation.pending());
            match device.resume(operation, reply) {
                Step::Next(next) => operation = next,
                Step::Done(_) => break,
            }
        }
        assert!(!bus.low);
    }
}

#[test]
fn holds_select_through_one_read() {
    let mut exchange: Exchange<SpiFault, PinFault> = Exchange::read_reg(Register::STATUS_REG);
    let mut held = Vec::new();
    loop {
        held.push((exchange.pending(), exchange.holds_select()));
        match exchange.resume(Reply::Byte(0x11)) {
            Progress::Next(next) => exchange = next,
            Progress::Done(result) => {
                assert_eq!(result.unwrap(), vec![0x11]);
                break;
            }
        }
    }
    assert_eq!(
        held,
        vec![
            (Action::Select, false),
            (Action::Send(0xA7), true),
            (Action::Receive, true),
            (Action::Deselect, true),
        ]
    );
}

#[test]
fn a_call_given_up_midway_still_holds_chip_select_until_released() {
    let device = device();
    let mut bus = Bus::new();
    let mut device_mut = self::device();
    let mut operation = device.get_raw();
    for _ in 0..4 {
        let reply = bus.perform(operation.pending());
        operation = match device_mut.resume(operation, reply) {
            Step::Next(next) => next,
            Step::Done(_) => panic!("ended early"),
        };
    }
    // given up here: the line is low, and the operation says so
    assert!(bus.low);
    assert!(operation.holds_select());
}
