use crate::error::DriverError;
use crate::port::{Bus, MemoryPort};
use crate::register::{
    read_effect, read_register, write_effect, write_outcome, write_register, AccessType,
};
use vstd::prelude::*;

verus! {

/// Frequency of the UART reference clock, in Hz.
pub const UARK_CLK: usize = 48000000usize;

/// Physical address of UART0; the other instances follow at a fixed stride.
pub const UART_BASE: u64 = 0x1F00030000;

/// Distance between the register blocks of consecutive UART instances.
pub const UART_STRIDE: u64 = 0x4000;

/// Number of UART instances on the chip.
pub const UART_COUNT: usize = 6;

/// The base address of UART `uart_index`, or `InvalidIndex`.
pub open spec fn uart_address(uart_index: usize) -> Result<u64, DriverError> {
    if uart_index < UART_COUNT {
        Ok((UART_BASE + UART_STRIDE * uart_index) as u64)
    } else {
        Err(DriverError::InvalidIndex)
    }
}

pub fn get_uart_address(uart_index: usize) -> (r: Result<u64, DriverError>)
    ensures
        r == uart_address(uart_index),
{
    if uart_index >= UART_COUNT {
        return Err(DriverError::InvalidIndex);
    }
    Ok(UART_BASE + UART_STRIDE * (uart_index as u64))
}

/// One UART register: where it lies in an instance's block, how wide it is,
/// and which directions it may be accessed in.
#[derive(Clone, Copy, Debug, PartialEq, Eq, Structural)]
pub struct UartRegisterDefinition {
    /// Offset from the instance's base address.
    pub offset: u64,
    /// Width of the register in bits, data and control bits together.
    pub bit_width: usize,
    /// How many of those bits hold data.
    pub data_width: usize,
    pub access_type: AccessType,
}

/// A value read from a UART register, with the number of bits that were read.
#[derive(Clone, Copy, Debug, PartialEq, Eq, Structural)]
pub struct UartRegReadResult {
    pub value: u64,
    pub bit_width: usize,
}

impl UartRegisterDefinition {
    /// The register's address in the last instance fits in 64 bits.
    pub open spec fn wf(&self) -> bool {
        self.offset <= u64::MAX - (UART_BASE + UART_STRIDE * (UART_COUNT - 1))
    }

    /// Writes the low `bits` bits of `value` to this register of UART
    /// `uart_index`, in a single access; returns the number of bytes that the
    /// bits occupy.
    pub fn write<P: MemoryPort>(&self, bus: &mut Bus<P>, uart_index: usize, value: u64, bits: usize) -> (r:
        Result<usize, DriverError>)
        requires
            self.wf(),
        ensures
            r == write_outcome(self.access_type, self.bit_width, uart_address(uart_index), bits),
            self.access_type == AccessType::ReadOnly ==> r == Err::<usize, DriverError>(
                DriverError::AccessDenied,
            ),
            uart_index >= UART_COUNT && self.access_type != AccessType::ReadOnly && bits
                <= self.bit_width ==> r == Err::<usize, DriverError>(DriverError::InvalidIndex),
            r is Err ==> final(bus).accesses() == old(bus).accesses(),
            write_effect(
                old(bus).accesses(),
                final(bus).accesses(),
                r,
                uart_address(uart_index),
                self.offset,
                value,
                bits,
            ),
            final(bus).poll_limit() == old(bus).poll_limit(),
    {
        write_register(
            bus,
            get_uart_address(uart_index),
            self.offset,
            self.bit_width,
            self.access_type,
            value,
            bits,
        )
    }

    /// Reads `bits` bits of this register of UART `uart_index`, in a single
    /// access.
    pub fn read<P: MemoryPort>(&self, bus: &mut Bus<P>, uart_index: usize, bits: usize) -> (r: Result<
        UartRegReadResult,
        DriverError,
    >)
        requires
            self.wf(),
        ensures
            read_effect(
                old(bus).accesses(),
                final(bus).accesses(),
                match r {
                    Ok(v) => Ok(v.value),
                    Err(e) => Err(e),
                },
                self.access_type,
                self.bit_width,
                uart_address(uart_index),
                self.offset,
                bits,
            ),
            r is Ok ==> r->Ok_0.bit_width == bits,
            self.access_type == AccessType::WriteOnly ==> r == Err::<UartRegReadResult, DriverError>(
                DriverError::AccessDenied,
            ),
            uart_index >= UART_COUNT && self.access_type != AccessType::WriteOnly && bits
                <= self.bit_width ==> r == Err::<UartRegReadResult, DriverError>(
                DriverError::InvalidIndex,
            ),
            r is Err ==> final(bus).accesses() == old(bus).accesses(),
            final(bus).poll_limit() == old(bus).poll_limit(),
    {
        match read_register(
            bus,
            get_uart_address(uart_index),
            self.offset,
            self.bit_width,
            self.access_type,
            bits,
        ) {
            Ok(value) => Ok(UartRegReadResult { value, bit_width: bits }),
            Err(e) => Err(e),
        }
    }
}

/// The registers of a PL011-style UART.
#[derive(Clone, Copy, Debug, PartialEq, Eq, Structural)]
pub enum UartRegister {
    /// UARTDR
    Data,
    /// UARTRSR, read side of offset 0x004
    ReceiveStatus,
    /// UARTECR, write side of offset 0x004
    ErrorClear,
    /// UARTFR
    Flag,
    /// UARTILPR
    IrdaLowPowerCounter,
    /// UARTIBRD
    IntegerBaudRate,
    /// UARTFBRD
    FractionalBaudRate,
    /// UARTLCR_H
    LineControl,
    /// UARTCR
    Control,
    /// UARTIFLS
    InterruptFifoLevel,
    /// UARTIMSC
    InterruptMask,
    /// UARTRIS
    RawInterruptStatus,
    /// UARTMIS, read side of offset 0x040
    MaskedInterruptStatus,
    /// UARTICR, write side of offset 0x040
    InterruptClear,
    /// UARTDMACR
    DmaControl,
}

pub open spec fn reg(offset: u64, bit_width: usize, data_width: usize, access_type: AccessType) -> UartRegisterDefinition {
    UartRegisterDefinition { offset, bit_width, data_width, access_type }
}

impl UartRegister {
    /// The register's layout, as the PL011 reference manual gives it.
    pub open spec fn spec_definition(self) -> UartRegisterDefinition {
        match self {
            UartRegister::Data => reg(0x000, 12, 8, AccessType::ReadWrite),
            UartRegister::ReceiveStatus => reg(0x004, 4, 0, AccessType::ReadOnly),
            UartRegister::ErrorClear => reg(0x004, 4, 0, AccessType::WriteOnly),
            UartRegister::Flag => reg(0x018, 9, 9, AccessType::ReadOnly),
            UartRegister::IrdaLowPowerCounter => reg(0x020, 8, 8, AccessType::ReadWrite),
            UartRegister::IntegerBaudRate => reg(0x024, 16, 16, AccessType::ReadWrite),
            UartRegister::FractionalBaudRate => reg(0x028, 6, 6, AccessType::ReadWrite),
            UartRegister::LineControl => reg(0x02C, 8, 8, AccessType::ReadWrite),
            UartRegister::Control => reg(0x030, 16, 16, AccessType::ReadWrite),
            UartRegister::InterruptFifoLevel => reg(0x034, 6, 6, AccessType::ReadWrite),
            UartRegister::InterruptMask => reg(0x038, 11, 11, AccessType::ReadWrite),
            UartRegister::RawInterruptStatus => reg(0x03C, 11, 11, AccessType::ReadOnly),
            UartRegister::MaskedInterruptStatus => reg(0x040, 11, 11, AccessType::ReadOnly),
            UartRegister::InterruptClear => reg(0x040, 11, 11, AccessType::WriteOnly),
            UartRegister::DmaControl => reg(0x048, 3, 3, AccessType::ReadWrite),
        }
    }

    pub fn definition(self) -> (r: UartRegisterDefinition)
        ensures
            r == self.spec_definition(),
            r.wf(),
    {
        let (offset, bit_width, data_width, access_type) = match self {
            UartRegister::Data => (0x000, 12, 8, AccessType::ReadWrite),
            UartRegister::ReceiveStatus => (0x004, 4, 0, AccessType::ReadOnly),
            UartRegister::ErrorClear => (0x004, 4, 0, AccessType::WriteOnly),
            UartRegister::Flag => (0x018, 9, 9, AccessType::ReadOnly),
            UartRegister::IrdaLowPowerCounter => (0x020, 8, 8, AccessType::ReadWrite),
            UartRegister::IntegerBaudRate => (0x024, 16, 16, AccessType::ReadWrite),
            UartRegister::FractionalBaudRate => (0x028, 6, 6, AccessType::ReadWrite),
            UartRegister::LineControl => (0x02C, 8, 8, AccessType::ReadWrite),
            UartRegister::Control => (0x030, 16, 16, AccessType::ReadWrite),
            UartRegister::InterruptFifoLevel => (0x034, 6, 6, AccessType::ReadWrite),
            UartRegister::InterruptMask => (0x038, 11, 11, AccessType::ReadWrite),
            UartRegister::RawInterruptStatus => (0x03C, 11, 11, AccessType::ReadOnly),
            UartRegister::MaskedInterruptStatus => (0x040, 11, 11, AccessType::ReadOnly),
            UartRegister::InterruptClear => (0x040, 11, 11, AccessType::WriteOnly),
            UartRegister::DmaControl => (0x048, 3, 3, AccessType::ReadWrite),
        };
        UartRegisterDefinition { offset, bit_width, data_width, access_type }
    }
}

} // verus!
