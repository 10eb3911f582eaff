use crate::error::DriverError;
use crate::port::{Bus, MemoryPort};
use crate::register::{
    read_effect, read_register, write_effect, write_outcome, write_register, AccessType,
};
use vstd::prelude::*;

verus! {

/// Physical address of the first GPIO pin's register block.
pub const GPIO_BASE: u64 = 0x1F000d0000;

/// Distance between the register blocks of consecutive GPIO pins.
pub const GPIO_STRIDE: u64 = 0x08;

/// Number of GPIO pins on the chip.
pub const GPIO_COUNT: usize = 28;

/// The base address of GPIO pin `gpio_index`, or `InvalidIndex`.
pub open spec fn gpio_address(gpio_index: usize) -> Result<u64, DriverError> {
    if gpio_index < GPIO_COUNT {
        Ok((GPIO_BASE + GPIO_STRIDE * gpio_index) as u64)
    } else {
        Err(DriverError::InvalidIndex)
    }
}

pub fn get_gpio_address(gpio_index: usize) -> (r: Result<u64, DriverError>)
    ensures
        r == gpio_address(gpio_index),
{
    if gpio_index >= GPIO_COUNT {
        return Err(DriverError::InvalidIndex);
    }
    Ok(GPIO_BASE + GPIO_STRIDE * (gpio_index as u64))
}

/// One GPIO register: where it lies in a pin's block, how wide it is, and which
/// directions it may be accessed in.
#[derive(Clone, Copy, Debug, PartialEq, Eq, Structural)]
pub struct GpioRegisterDefinition {
    /// Offset from the instance's base address.
    pub offset: u64,
    /// Width of the register in bits.
    pub bit_width: usize,
    pub access_type: AccessType,
}

/// A value read from a GPIO register, with the number of bits that were read.
#[derive(Clone, Copy, Debug, PartialEq, Eq, Structural)]
pub struct GpioRegReadResult {
    pub value: u64,
    pub bit_width: usize,
}

impl GpioRegisterDefinition {
    /// The register's address in the last instance fits in 64 bits.
    pub open spec fn wf(&self) -> bool {
        self.offset <= u64::MAX - (GPIO_BASE + GPIO_STRIDE * (GPIO_COUNT - 1))
    }

    /// Writes the low `bits` bits of `value` to this register of GPIO pin
    /// `gpio_index`, in a single access; returns the number of bytes that the
    /// bits occupy.
    pub fn write<P: MemoryPort>(&self, bus: &mut Bus<P>, gpio_index: usize, value: u64, bits: usize) -> (r:
        Result<usize, DriverError>)
        requires
            self.wf(),
        ensures
            r == write_outcome(self.access_type, self.bit_width, gpio_address(gpio_index), bits),
            self.access_type == AccessType::ReadOnly ==> r == Err::<usize, DriverError>(
                DriverError::AccessDenied,
            ),
            gpio_index >= GPIO_COUNT && self.access_type != AccessType::ReadOnly && bits
                <= self.bit_width ==> r == Err::<usize, DriverError>(DriverError::InvalidIndex),
            r is Err ==> final(bus).accesses() == old(bus).accesses(),
            write_effect(
                old(bus).accesses(),
                final(bus).accesses(),
                r,
                gpio_address(gpio_index),
                self.offset,
                value,
                bits,
            ),
            final(bus).poll_limit() == old(bus).poll_limit(),
    {
        write_register(
            bus,
            get_gpio_address(gpio_index),
            self.offset,
            self.bit_width,
            self.access_type,
            value,
            bits,
        )
    }

    /// Reads `bits` bits of this register of GPIO pin `gpio_index`, in a single
    /// access.
    pub fn read<P: MemoryPort>(&self, bus: &mut Bus<P>, gpio_index: usize, bits: usize) -> (r: Result<
        GpioRegReadResult,
        DriverError,
    >)
        requires
            self.wf(),
        ensures
            read_effect(
                old(bus).accesses(),
                final(bus).accesses(),
                match r {
                    Ok(v) => Ok(v.value),
                    Err(e) => Err(e),
                },
                self.access_type,
                self.bit_width,
                gpio_address(gpio_index),
                self.offset,
                bits,
            ),
            r is Ok ==> r->Ok_0.bit_width == bits,
            self.access_type == AccessType::WriteOnly ==> r == Err::<GpioRegReadResult, DriverError>(
                DriverError::AccessDenied,
            ),
            gpio_index >= GPIO_COUNT && self.access_type != AccessType::WriteOnly && bits
                <= self.bit_width ==> r == Err::<GpioRegReadResult, DriverError>(
                DriverError::InvalidIndex,
            ),
            r is Err ==> final(bus).accesses() == old(bus).accesses(),
            final(bus).poll_limit() == old(bus).poll_limit(),
    {
        match read_register(
            bus,
            get_gpio_address(gpio_index),
            self.offset,
            self.bit_width,
            self.access_type,
            bits,
        ) {
            Ok(value) => Ok(GpioRegReadResult { value, bit_width: bits }),
            Err(e) => Err(e),
        }
    }
}

/// The registers of a GPIO pin.
#[derive(Clone, Copy, Debug, PartialEq, Eq, Structural)]
pub enum GpioRegister {
    Status,
    Control,
}

impl GpioRegister {
    pub open spec fn spec_definition(self) -> GpioRegisterDefinition {
        match self {
            GpioRegister::Status => GpioRegisterDefinition {
                offset: 0x00,
                bit_width: 32,
                access_type: AccessType::ReadOnly,
            },
            GpioRegister::Control => GpioRegisterDefinition {
                offset: 0x04,
                bit_width: 32,
                access_type: AccessType::ReadWrite,
            },
        }
    }

    pub fn definition(self) -> (r: GpioRegisterDefinition)
        ensures
            r == self.spec_definition(),
            r.wf(),
    {
        match self {
            GpioRegister::Status => GpioRegisterDefinition {
                offset: 0x00,
                bit_width: 32,
                access_type: AccessType::ReadOnly,
            },
            GpioRegister::Control => GpioRegisterDefinition {
                offset: 0x04,
                bit_width: 32,
                access_type: AccessType::ReadWrite,
            },
        }
    }
}

} // verus!
