use rpi5_uart::error::DriverError;
use rpi5_uart::gpio::{get_gpio_address, GpioRegister};
use rpi5_uart::port::{Bus, RamPort};
use rpi5_uart::uart_register::{get_uart_address, UartRegister};

const UART0: u64 = 0x1F00030000;

#[test]
fn uart_addresses_follow_the_table() {
    assert_eq!(get_uart_address(0), Ok(0x1F00030000));
    assert_eq!(get_uart_address(1), Ok(0x1F00034000));
    assert_eq!(get_uart_address(5), Ok(0x1F00044000));
    assert_eq!(get_uart_address(6), Err(DriverError::InvalidIndex));
    assert_eq!(get_uart_address(usize::MAX), Err(DriverError::InvalidIndex));
}

#[test]
fn gpio_addresses_follow_the_table() {
    assert_eq!(get_gpio_address(0), Ok(0x1F000d0000));
    assert_eq!(get_gpio_address(1), Ok(0x1F000d0008));
    assert_eq!(get_gpio_address(27), Ok(0x1F000d00D8));
    assert_eq!(get_gpio_address(28), Err(DriverError::InvalidIndex));
}

#[test]
fn write_then_read_returns_masked_value() {
    let mut ram = RamPort::new();
    ram.set(UART0, 0xFFFF_FFFF);
    let mut bus = Bus::new(ram);
    let data = UartRegister::Data.definition();
    assert_eq!(data.write(&mut bus, 0, 0xABC, 8), Ok(1));
    let r = data.read(&mut bus, 0, 8).unwrap();
    assert_eq!(r.value, 0xBC);
    assert_eq!(r.bit_width, 8);

    let ibrd = UartRegister::IntegerBaudRate.definition();
    assert_eq!(ibrd.write(&mut bus, 2, 0x12345, 16), Ok(2));
    assert_eq!(ibrd.read(&mut bus, 2, 16).unwrap().value, 0x2345);
    assert_eq!(ibrd.write(&mut bus, 2, 0x1FF, 5), Ok(1));
    assert_eq!(ibrd.read(&mut bus, 2, 5).unwrap().value, 0x1F);
}

#[test]
fn write_then_read_of_thirty_two_bits() {
    let mut bus = Bus::new(RamPort::new());
    let ctrl = GpioRegister::Control.definition();
    assert_eq!(ctrl.write(&mut bus, 3, 0xDEAD_BEEF_1234_5678, 32), Ok(4));
    assert_eq!(ctrl.read(&mut bus, 3, 32).unwrap().value, 0x1234_5678);
    assert_eq!(bus.port().get(0x1F000d0018 + 4), 0x1234_5678);
}

#[test]
fn out_of_range_index_is_refused_without_access() {
    let mut bus = Bus::new(RamPort::new());
    let cr = UartRegister::Control.definition();
    assert_eq!(cr.write(&mut bus, 6, 1, 16), Err(DriverError::InvalidIndex));
    assert_eq!(cr.read(&mut bus, 6, 16).err(), Some(DriverError::InvalidIndex));
    assert_eq!(cr.read(&mut bus, 100, 1).err(), Some(DriverError::InvalidIndex));
    let ctrl = GpioRegister::Control.definition();
    assert_eq!(ctrl.write(&mut bus, 28, 1, 32), Err(DriverError::InvalidIndex));
    assert_eq!(ctrl.read(&mut bus, 28, 32).err(), Some(DriverError::InvalidIndex));
    assert_eq!(bus.port().access_count(), 0);
}

#[test]
fn access_mode_is_enforced_without_access() {
    let mut bus = Bus::new(RamPort::new());
    let flags = UartRegister::Flag.definition();
    assert_eq!(flags.write(&mut bus, 0, 1, 9), Err(DriverError::AccessDenied));
    assert_eq!(flags.write(&mut bus, 9, 1, 100), Err(DriverError::AccessDenied));
    let rsr = UartRegister::ReceiveStatus.definition();
    assert_eq!(rsr.write(&mut bus, 0, 1, 4), Err(DriverError::AccessDenied));
    let ecr = UartRegister::ErrorClear.definition();
    assert_eq!(ecr.read(&mut bus, 0, 4).err(), Some(DriverError::AccessDenied));
    let icr = UartRegister::InterruptClear.definition();
    assert_eq!(icr.read(&mut bus, 0, 11).err(), Some(DriverError::AccessDenied));
    let status = GpioRegister::Status.definition();
    assert_eq!(status.write(&mut bus, 0, 1, 32), Err(DriverError::AccessDenied));
    assert_eq!(bus.port().access_count(), 0);
    assert_eq!(ecr.write(&mut bus, 0, 0xF, 4), Ok(1));
    assert_eq!(rsr.read(&mut bus, 0, 4).unwrap().value, 0xF);
    assert_eq!(bus.port().access_count(), 2);
}

#[test]
fn too_many_bits_overflow() {
    let mut bus = Bus::new(RamPort::new());
    let data = UartRegister::Data.definition();
    assert_eq!(data.write(&mut bus, 0, 1, 13), Err(DriverError::WidthOverflow));
    assert_eq!(data.read(&mut bus, 0, 13).err(), Some(DriverError::WidthOverflow));
    assert_eq!(bus.port().access_count(), 0);
}

#[test]
fn unsupported_transfer_sizes() {
    let mut bus = Bus::new(RamPort::new());
    let ctrl = GpioRegister::Control.definition();
    assert_eq!(ctrl.write(&mut bus, 0, 1, 0), Err(DriverError::UnsupportedRegisterSize));
    assert_eq!(ctrl.read(&mut bus, 0, 0).err(), Some(DriverError::UnsupportedRegisterSize));
    // Three bytes can be written (as four) but not read.
    assert_eq!(ctrl.write(&mut bus, 0, 0xFF_FFFF, 24), Ok(3));
    assert_eq!(ctrl.read(&mut bus, 0, 24).err(), Some(DriverError::UnsupportedRegisterSize));
    assert_eq!(bus.port().access_count(), 1);
}

#[test]
fn write_reports_byte_count() {
    let mut bus = Bus::new(RamPort::new());
    let data = UartRegister::Data.definition();
    assert_eq!(data.write(&mut bus, 1, 0xFFF, 12), Ok(2));
    assert_eq!(data.read(&mut bus, 1, 12).unwrap().value, 0xFFF);
    assert_eq!(data.write(&mut bus, 1, 0xFFF, 1), Ok(1));
    assert_eq!(data.read(&mut bus, 1, 12).unwrap().value, 0x1);
}

#[test]
fn ram_port_keeps_latest_store() {
    let mut ram = RamPort::new();
    assert_eq!(ram.get(7), 0);
    ram.set(7, 1);
    ram.set(8, 2);
    ram.set(7, 3);
    assert_eq!(ram.get(7), 3);
    assert_eq!(ram.get(8), 2);
    assert_eq!(ram.access_count(), 0);
}

#[test]
fn bus_poll_limit() {
    let bus = Bus::with_poll_limit(RamPort::new(), 4);
    assert_eq!(bus.max_polls(), 4);
    let bus = Bus::new(RamPort::new());
    assert_eq!(bus.max_polls(), usize::MAX);
    assert_eq!(bus.into_port().access_count(), 0);
}
