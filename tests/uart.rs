use rpi5_uart::error::DriverError;
use rpi5_uart::port::{Bus, MemoryPort, RamPort};
use rpi5_uart::uart::{
    baud_rate_divisors, UartInstance, line_control_value, FIFOEnableMode, InstanceBuilder, ParityEnableMode,
    ParitySelect, StickParityEnableMode, StopBitMode, TransmitMode, WordLength,
};

const UART0: u64 = 0x1F00030000;
const UART3: u64 = 0x1F0003C000;
const DR: u64 = 0x000;
const FR: u64 = 0x018;
const IBRD: u64 = 0x024;
const FBRD: u64 = 0x028;
const LCR_H: u64 = 0x02C;
const CR: u64 = 0x030;

/// Memory that logs each access and can hold chosen bits set on loads of one
/// address, as hardware status bits would be.
struct ScriptedPort {
    ram: RamPort,
    stuck_addr: u64,
    stuck_bits: u64,
    ignore_writes_to: u64,
    log: Vec<(bool, u64, u64)>,
}

impl ScriptedPort {
    fn new(stuck_addr: u64, stuck_bits: u64) -> ScriptedPort {
        ScriptedPort { ram: RamPort::new(), stuck_addr, stuck_bits, ignore_writes_to: u64::MAX, log: Vec::new() }
    }
}

impl MemoryPort for ScriptedPort {
    fn read_raw(&mut self, addr: u64, width: usize) -> u64 {
        let mut v = self.ram.read_raw(addr, width);
        if addr == self.stuck_addr {
            v |= self.stuck_bits;
        }
        self.log.push((false, addr, v));
        v
    }

    fn write_raw(&mut self, addr: u64, width: usize, value: u64) {
        self.log.push((true, addr, value));
        if addr != self.ignore_writes_to {
            self.ram.write_raw(addr, width, value);
        }
    }
}

fn standard_builder(index: usize) -> InstanceBuilder {
    InstanceBuilder::new(index)
        .with_baud_rate(115200)
        .with_word_length(WordLength::Bits8)
        .with_fifo()
        .with_stop_bit_mode(StopBitMode::OneStopBit)
        .with_transmit_mode(TransmitMode::Bidirectional)
}

#[test]
fn baud_divisor_for_115200() {
    assert_eq!(baud_rate_divisors(115200), Ok((26, 3)));
}

#[test]
fn baud_divisor_other_rates() {
    assert_eq!(baud_rate_divisors(9600), Ok((312, 32)));
    assert_eq!(baud_rate_divisors(3_000_000), Ok((1, 0)));
    assert_eq!(baud_rate_divisors(1), Ok((3_000_000, 0)));
    assert_eq!(baud_rate_divisors(45), Ok((66666, 43)));
    assert_eq!(baud_rate_divisors(557), Ok((5385, 64)));
    assert_eq!(baud_rate_divisors(usize::MAX), Ok((0, 0)));
}

#[test]
fn zero_baud_rate_is_invalid() {
    assert_eq!(baud_rate_divisors(0), Err(DriverError::InvalidBaudRate));
    for b in [1usize, 2, 45, 46, 300, 115200, 921600, 48_000_000, usize::MAX] {
        assert!(baud_rate_divisors(b).is_ok());
    }
}

#[test]
fn line_control_for_eight_bits_with_fifo() {
    let v = line_control_value(
        WordLength::Bits8,
        FIFOEnableMode::Enabled,
        ParityEnableMode::Disabled,
        StickParityEnableMode::Disabled,
        StopBitMode::OneStopBit,
    );
    assert_eq!(v, 0b0111_0000);
}

#[test]
fn line_control_other_formats() {
    let v = line_control_value(
        WordLength::Bits5,
        FIFOEnableMode::Disabled,
        ParityEnableMode::Enabled(ParitySelect::Even),
        StickParityEnableMode::Enabled,
        StopBitMode::TwoStopBits,
    );
    assert_eq!(v, 0b1000_1110);
    let v = line_control_value(
        WordLength::Bits7,
        FIFOEnableMode::Disabled,
        ParityEnableMode::Enabled(ParitySelect::Odd),
        StickParityEnableMode::Disabled,
        StopBitMode::OneStopBit,
    );
    assert_eq!(v, 0b0100_0010);
    let v = line_control_value(
        WordLength::Bits6,
        FIFOEnableMode::Enabled,
        ParityEnableMode::Disabled,
        StickParityEnableMode::Disabled,
        StopBitMode::OneStopBit,
    );
    assert_eq!(v, 0b0011_0000);
}

#[test]
fn builder_defaults_and_setters() {
    let c = InstanceBuilder::default().config();
    assert_eq!(c.uart_index, 7);
    assert_eq!(c.baud_rate, 115200);
    assert_eq!(c.word_length, WordLength::Bits8);
    assert_eq!(c.fifo_enable_mode, FIFOEnableMode::Disabled);
    assert_eq!(c.parity_enable_mode, ParityEnableMode::Disabled);
    assert_eq!(c.stick_parity_enable_mode, StickParityEnableMode::Disabled);
    assert_eq!(c.stop_bit_mode, StopBitMode::OneStopBit);
    assert_eq!(c.transmit_mode, TransmitMode::Bidirectional);

    let c = InstanceBuilder::new(2)
        .with_parity(ParitySelect::Odd)
        .with_stick_parity()
        .with_word_length(WordLength::Bits6)
        .with_baud_rate(9600)
        .with_transmit_mode(TransmitMode::TxOnly)
        .with_stop_bit_mode(StopBitMode::TwoStopBits)
        .config();
    assert_eq!(c.uart_index, 2);
    assert_eq!(c.parity_enable_mode, ParityEnableMode::Enabled(ParitySelect::Odd));
    assert_eq!(c.stick_parity_enable_mode, StickParityEnableMode::Enabled);
    assert_eq!(c.word_length, WordLength::Bits6);
    assert_eq!(c.baud_rate, 9600);
    assert_eq!(c.transmit_mode, TransmitMode::TxOnly);
    assert_eq!(c.stop_bit_mode, StopBitMode::TwoStopBits);
    assert_eq!(c.fifo_enable_mode, FIFOEnableMode::Disabled);
}

#[test]
fn end_to_end_bring_up() {
    let mut ram = RamPort::new();
    ram.set(UART0 + LCR_H, 0x1FF);
    ram.set(UART0 + CR, 0x0300);
    let mut bus = Bus::new(ScriptedPort { ram, stuck_addr: u64::MAX, stuck_bits: 0, ignore_writes_to: u64::MAX, log: Vec::new() });
    let uart = standard_builder(0).build(&mut bus).unwrap();
    let port = bus.port();
    assert_eq!(port.ram.get(UART0 + LCR_H), 0x70);
    assert_eq!(port.ram.get(UART0 + IBRD), 26);
    assert_eq!(port.ram.get(UART0 + FBRD), 3);
    assert_eq!(port.ram.get(UART0 + CR), 0x301);
    let steps: Vec<(bool, u64)> = port.log.iter().map(|(w, a, _)| (*w, *a - UART0)).collect();
    assert_eq!(
        steps,
        vec![
            (false, CR),
            (false, CR),
            (true, CR),
            (false, FR),
            (false, LCR_H),
            (true, LCR_H),
            (true, LCR_H),
            (true, IBRD),
            (true, FBRD),
            (false, CR),
            (true, CR),
            (false, CR),
        ]
    );
    // Disabling cleared the enables and flushed the FIFOs.
    assert_eq!(port.log[2].2, 0);
    assert_eq!(port.log[5].2, 0xEF);
    let flags = uart.flags(&mut bus);
    assert!(!flags.transmit_busy());
    assert!(!flags.transmit_fifo_full());
}

#[test]
fn bring_up_transmit_modes() {
    let mut bus = Bus::new(RamPort::new());
    let _ = InstanceBuilder::new(3).with_transmit_mode(TransmitMode::TxOnly).build(&mut bus).unwrap();
    assert_eq!(bus.port().get(UART3 + CR), 0x101);
    let mut bus = Bus::new(RamPort::new());
    let _ = InstanceBuilder::new(3).with_transmit_mode(TransmitMode::RxOnly).build(&mut bus).unwrap();
    assert_eq!(bus.port().get(UART3 + CR), 0x201);
    assert_eq!(bus.port().get(UART3 + LCR_H), 0x60);
}

#[test]
fn default_builder_targets_no_instance() {
    let mut bus = Bus::new(RamPort::new());
    let r = InstanceBuilder::default().build(&mut bus);
    assert_eq!(r.err(), Some(DriverError::InvalidIndex));
    let r = InstanceBuilder::new(6).build(&mut bus);
    assert_eq!(r.err(), Some(DriverError::InvalidIndex));
    assert_eq!(bus.port().access_count(), 0);
}

#[test]
fn zero_baud_rate_fails_bring_up() {
    let mut bus = Bus::new(RamPort::new());
    let r = standard_builder(0).with_baud_rate(0).build(&mut bus);
    assert_eq!(r.err(), Some(DriverError::InvalidBaudRate));
    assert_eq!(bus.port().get(UART0 + IBRD), 0);
    assert_eq!(bus.port().get(UART0 + CR), 0);
}

#[test]
fn already_enabled_stops_bring_up() {
    let mut bus = Bus::new(ScriptedPort::new(UART0 + CR, 0x1));
    let r = standard_builder(0).build(&mut bus);
    assert_eq!(r.err(), Some(DriverError::AlreadyEnabled));
    assert_eq!(bus.port().log, vec![(false, UART0 + CR, 0x1)]);
}

#[test]
fn second_bring_up_leaves_running_uart_alone() {
    let mut bus = Bus::new(RamPort::new());
    let _uart = standard_builder(0).build(&mut bus).unwrap();
    let before = bus.port().access_count();
    let regs = [LCR_H, IBRD, FBRD, CR].map(|r| bus.port().get(UART0 + r));
    let r = InstanceBuilder::new(0).with_baud_rate(9600).with_word_length(WordLength::Bits5).build(&mut bus);
    assert_eq!(r.err(), Some(DriverError::AlreadyEnabled));
    assert_eq!(bus.port().access_count(), before + 1);
    assert_eq!([LCR_H, IBRD, FBRD, CR].map(|r| bus.port().get(UART0 + r)), regs);
    // Another instance can still be brought up.
    assert!(standard_builder(1).build(&mut bus).is_ok());
}

#[test]
fn control_read_back_mismatch_fails() {
    let mut port = ScriptedPort::new(u64::MAX, 0);
    port.ignore_writes_to = UART0 + CR;
    let mut bus = Bus::new(port);
    let r = standard_builder(0).build(&mut bus);
    assert_eq!(r.err(), Some(DriverError::VerificationFailed));
}

#[test]
fn busy_transmitter_exhausts_poll_budget() {
    let mut bus = Bus::with_poll_limit(ScriptedPort::new(UART0 + FR, 0x08), 5);
    let r = standard_builder(0).build(&mut bus);
    assert_eq!(r.err(), Some(DriverError::WaitExhausted));
    let log = &bus.port().log;
    assert_eq!(log.len(), 8);
    assert!(log[3..].iter().all(|(w, a, _)| !*w && *a == UART0 + FR));
}

#[test]
fn flags_decode_each_bit() {
    let mut bus = Bus::new(RamPort::new());
    let uart = standard_builder(0).build(&mut bus).unwrap();
    let mut port = bus.into_port();
    port.set(UART0 + FR, 0x1A9);
    let mut bus = Bus::new(port);
    let f = uart.flags(&mut bus);
    assert!(f.clear_to_send());
    assert!(!f.data_set_ready());
    assert!(!f.data_carrier_detect());
    assert!(f.transmit_busy());
    assert!(!f.receive_fifo_empty());
    assert!(f.transmit_fifo_full());
    assert!(!f.receive_fifo_full());
    assert!(f.transmit_fifo_empty());
    port = bus.into_port();
    port.set(UART0 + FR, 0x56);
    let mut bus = Bus::new(port);
    let f = uart.flags(&mut bus);
    assert!(!f.clear_to_send());
    assert!(f.data_set_ready());
    assert!(f.data_carrier_detect());
    assert!(!f.transmit_busy());
    assert!(f.receive_fifo_empty());
    assert!(!f.transmit_fifo_full());
    assert!(f.receive_fifo_full());
    assert!(!f.transmit_fifo_empty());
}

#[test]
fn poll_write_of_nothing_touches_nothing() {
    let mut bus = Bus::new(RamPort::new());
    let uart = standard_builder(0).build(&mut bus).unwrap();
    let before = bus.port().access_count();
    assert_eq!(uart.poll_write(&mut bus, &[]), Ok(0));
    assert_eq!(bus.port().access_count(), before);
}

#[test]
fn poll_write_sends_each_byte() {
    let mut bus = Bus::new(ScriptedPort::new(u64::MAX, 0));
    let uart = standard_builder(0).build(&mut bus).unwrap();
    let start = bus.port().log.len();
    assert_eq!(uart.poll_write(&mut bus, b"Hi!"), Ok(3));
    let sent: Vec<(bool, u64, u64)> = bus.port().log[start..].to_vec();
    assert_eq!(
        sent,
        vec![
            (false, UART0 + FR, 0),
            (true, UART0 + DR, b'H' as u64),
            (false, UART0 + FR, 0),
            (true, UART0 + DR, b'i' as u64),
            (false, UART0 + FR, 0),
            (true, UART0 + DR, b'!' as u64),
        ]
    );
}

#[test]
fn poll_write_gives_up_on_full_fifo() {
    let mut bus = Bus::with_poll_limit(ScriptedPort::new(UART0 + FR, 0x20), 3);
    let uart = standard_builder(0).build(&mut bus).unwrap();
    let start = bus.port().log.len();
    assert_eq!(uart.poll_write(&mut bus, b"x"), Err(DriverError::WaitExhausted));
    assert_eq!(bus.port().log.len() - start, 3);
}

#[test]
fn bring_up_steps_refuse_invalid_index() {
    let mut bus = Bus::new(RamPort::new());
    assert_eq!(UartInstance::disable_uart(&mut bus, 6), Err(DriverError::InvalidIndex));
    assert_eq!(UartInstance::disable_fifos(&mut bus, 6), Err(DriverError::InvalidIndex));
    assert_eq!(
        UartInstance::configure_line_control(
            &mut bus,
            6,
            WordLength::Bits8,
            FIFOEnableMode::Enabled,
            ParityEnableMode::Disabled,
            StickParityEnableMode::Disabled,
            StopBitMode::OneStopBit,
        ),
        Err(DriverError::InvalidIndex)
    );
    assert_eq!(UartInstance::set_baud_rate(&mut bus, 6, 9600), Err(DriverError::InvalidIndex));
    assert_eq!(UartInstance::set_baud_rate(&mut bus, 6, 0), Err(DriverError::InvalidBaudRate));
    assert_eq!(
        UartInstance::enable_uart(&mut bus, 6, TransmitMode::Bidirectional),
        Err(DriverError::InvalidIndex)
    );
    assert_eq!(bus.port().access_count(), 0);
}

#[test]
fn set_baud_rate_stores_register_widths() {
    let mut bus = Bus::new(RamPort::new());
    assert_eq!(UartInstance::set_baud_rate(&mut bus, 1, 0), Err(DriverError::InvalidBaudRate));
    assert_eq!(bus.port().access_count(), 0);
    let uart1: u64 = 0x1F00034000;
    assert_eq!(UartInstance::set_baud_rate(&mut bus, 1, 115200), Ok(()));
    assert_eq!(bus.port().get(uart1 + IBRD), 26);
    assert_eq!(bus.port().get(uart1 + FBRD), 3);
    assert_eq!(UartInstance::set_baud_rate(&mut bus, 1, 45), Ok(()));
    assert_eq!(bus.port().get(uart1 + IBRD), 1130);
    assert_eq!(bus.port().get(uart1 + FBRD), 43);
    assert_eq!(UartInstance::set_baud_rate(&mut bus, 1, 557), Ok(()));
    assert_eq!(bus.port().get(uart1 + IBRD), 5385);
    assert_eq!(bus.port().get(uart1 + FBRD), 0);
}

#[test]
fn disable_fifos_clears_only_the_fifo_bit() {
    let mut ram = RamPort::new();
    ram.set(UART0 + LCR_H, 0xFF);
    let mut bus = Bus::new(ram);
    assert_eq!(UartInstance::disable_fifos(&mut bus, 0), Ok(()));
    assert_eq!(bus.port().get(UART0 + LCR_H), 0xEF);
}
