use crate::error::DriverError;
use crate::port::{truncate_to_width, Access, Bus, MemoryPort};
use vstd::prelude::*;

verus! {

/// Which directions a register may be accessed in.
#[derive(Clone, Copy, Debug, PartialEq, Eq, Structural)]
pub enum AccessType {
    ReadOnly,
    WriteOnly,
    ReadWrite,
}

/// The low `bits` bits set, all 64 for `bits >= 64`.
pub open spec fn low_mask(bits: usize) -> u64 {
    if bits >= 64 {
        u64::MAX
    } else {
        ((1u64 << bits as u64) - 1) as u64
    }
}

/// The number of bytes that `bits` bits occupy: `ceil(bits / 8)`.
pub open spec fn byte_count(bits: usize) -> nat {
    ((bits as nat) + 7) / 8
}

/// The transfer size in bytes of a write of `bits` bits: one, two, three-as-four
/// or four-as-eight bytes; any other byte count is not supported.
pub open spec fn write_width(bits: usize) -> Option<usize> {
    let n = byte_count(bits);
    if n == 1 {
        Some(1usize)
    } else if n == 2 {
        Some(2usize)
    } else if n == 3 {
        Some(4usize)
    } else if n == 4 {
        Some(8usize)
    } else {
        None
    }
}

/// The transfer size in bytes of a read of `bits` bits: one, two, four or
/// eight bytes; any other byte count is not supported.
pub open spec fn read_width(bits: usize) -> Option<usize> {
    let n = byte_count(bits);
    if n == 1 || n == 2 || n == 4 || n == 8 {
        Some(n as usize)
    } else {
        None
    }
}

/// What a write of `bits` bits reports, given the access type and width of the
/// register and the base address that the instance index resolved to. The checks
/// run in this order: access type, width, index, transfer size.
pub open spec fn write_outcome(
    access: AccessType,
    bit_width: usize,
    base: Result<u64, DriverError>,
    bits: usize,
) -> Result<usize, DriverError> {
    if access == AccessType::ReadOnly {
        Err(DriverError::AccessDenied)
    } else if bits > bit_width {
        Err(DriverError::WidthOverflow)
    } else if base is Err {
        Err(base->Err_0)
    } else if write_width(bits) is None {
        Err(DriverError::UnsupportedRegisterSize)
    } else {
        Ok(byte_count(bits) as usize)
    }
}

/// The error a read of `bits` bits reports, if any; the checks run in the same
/// order as for a write.
pub open spec fn read_failure(
    access: AccessType,
    bit_width: usize,
    base: Result<u64, DriverError>,
    bits: usize,
) -> Option<DriverError> {
    if access == AccessType::WriteOnly {
        Some(DriverError::AccessDenied)
    } else if bits > bit_width {
        Some(DriverError::WidthOverflow)
    } else if base is Err {
        Some(base->Err_0)
    } else if read_width(bits) is None {
        Some(DriverError::UnsupportedRegisterSize)
    } else {
        None
    }
}

/// The log effect of a write: one store of the masked value on success,
/// nothing on failure.
pub open spec fn write_effect(
    before: Seq<Access>,
    after: Seq<Access>,
    r: Result<usize, DriverError>,
    base: Result<u64, DriverError>,
    offset: u64,
    value: u64,
    bits: usize,
) -> bool {
    &&& r is Ok ==> after == before.push(
        Access::Write {
            addr: (base->Ok_0 + offset) as u64,
            width: write_width(bits)->Some_0,
            value: value & low_mask(bits),
        },
    )
    &&& r is Err ==> after == before
}

/// The log effect of a read, and its result: on success, one load, whose raw
/// value cut to `bits` bits is the result; on failure, nothing.
pub open spec fn read_effect(
    before: Seq<Access>,
    after: Seq<Access>,
    r: Result<u64, DriverError>,
    access: AccessType,
    bit_width: usize,
    base: Result<u64, DriverError>,
    offset: u64,
    bits: usize,
) -> bool {
    &&& r is Err <==> read_failure(access, bit_width, base, bits) is Some
    &&& r is Err ==> r->Err_0 == read_failure(access, bit_width, base, bits)->Some_0 && after
        == before
    &&& r is Ok ==> after.len() == before.len() + 1 && after == before.push(
        Access::Read {
            addr: (base->Ok_0 + offset) as u64,
            width: read_width(bits)->Some_0,
            value: after.last()->Read_value,
        },
    ) && r->Ok_0 == after.last()->Read_value & low_mask(bits)
}

pub(crate) fn mask_for(bits: usize) -> (r: u64)
    ensures
        r == low_mask(bits),
{
    if bits >= 64 {
        u64::MAX
    } else {
        let s: u64 = bits as u64;
        assert(1u64 << s >= 1) by (bit_vector)
            requires
                s < 64,
        ;
        (1u64 << s) - 1
    }
}

fn bytes_for(bits: usize) -> (r: usize)
    ensures
        r as nat == byte_count(bits),
{
    bits / 8 + if bits % 8 > 0 {
        1
    } else {
        0
    }
}

/// Writes the low `bits` bits of `value` to the register at `offset` from
/// `base`, in one access sized by the bit count. Returns the byte count.
pub(crate) fn write_register<P: MemoryPort>(
    bus: &mut Bus<P>,
    base: Result<u64, DriverError>,
    offset: u64,
    bit_width: usize,
    access: AccessType,
    value: u64,
    bits: usize,
) -> (r: Result<usize, DriverError>)
    requires
        base is Ok ==> base->Ok_0 + offset <= u64::MAX,
    ensures
        r == write_outcome(access, bit_width, base, bits),
        write_effect(old(bus).accesses(), final(bus).accesses(), r, base, offset, value, bits),
        final(bus).poll_limit() == old(bus).poll_limit(),
{
    if let AccessType::ReadOnly = access {
        return Err(DriverError::AccessDenied);
    }
    if bits > bit_width {
        return Err(DriverError::WidthOverflow);
    }
    let base_addr = match base {
        Ok(a) => a,
        Err(e) => {
            return Err(e);
        },
    };
    let addr = base_addr + offset;
    let masked = value & mask_for(bits);
    let bytes = bytes_for(bits);
    let width: usize = if bytes == 1 {
        1
    } else if bytes == 2 {
        2
    } else if bytes == 3 {
        4
    } else if bytes == 4 {
        8
    } else {
        return Err(DriverError::UnsupportedRegisterSize);
    };
    bus.write_raw(addr, width, masked);
    Ok(bytes)
}

/// Reads the register at `offset` from `base` in one access sized by the bit
/// count, and returns the raw value cut to its low `bits` bits.
pub(crate) fn read_register<P: MemoryPort>(
    bus: &mut Bus<P>,
    base: Result<u64, DriverError>,
    offset: u64,
    bit_width: usize,
    access: AccessType,
    bits: usize,
) -> (r: Result<u64, DriverError>)
    requires
        base is Ok ==> base->Ok_0 + offset <= u64::MAX,
    ensures
        read_effect(
            old(bus).accesses(),
            final(bus).accesses(),
            r,
            access,
            bit_width,
            base,
            offset,
            bits,
        ),
        final(bus).poll_limit() == old(bus).poll_limit(),
{
    if let AccessType::WriteOnly = access {
        return Err(DriverError::AccessDenied);
    }
    if bits > bit_width {
        return Err(DriverError::WidthOverflow);
    }
    let base_addr = match base {
        Ok(a) => a,
        Err(e) => {
            return Err(e);
        },
    };
    let addr = base_addr + offset;
    let mask = mask_for(bits);
    let bytes = bytes_for(bits);
    if !(bytes == 1 || bytes == 2 || bytes == 4 || bytes == 8) {
        return Err(DriverError::UnsupportedRegisterSize);
    }
    let raw = bus.read_raw(addr, bytes);
    Ok(raw & mask)
}

/// The masks for the bit counts that the UART registers use.
pub proof fn lemma_low_mask_values()
    ensures
        low_mask(6) == 0x3F,
        low_mask(8) == 0xFF,
        low_mask(9) == 0x1FF,
        low_mask(16) == 0xFFFF,
{
    assert(((1u64 << 6u64) - 1) as u64 == 0x3F) by (bit_vector);
    assert(((1u64 << 8u64) - 1) as u64 == 0xFF) by (bit_vector);
    assert(((1u64 << 9u64) - 1) as u64 == 0x1FF) by (bit_vector);
    assert(((1u64 << 16u64) - 1) as u64 == 0xFFFF) by (bit_vector);
}

proof fn lemma_low_masks_nest(b: u64, s: u64)
    requires
        b <= s,
        s < 64,
    ensures
        ((1u64 << b) - 1) as u64 & ((1u64 << s) - 1) as u64 == ((1u64 << b) - 1) as u64,
{
    assert(((1u64 << b) - 1) as u64 & ((1u64 << s) - 1) as u64 == ((1u64 << b) - 1) as u64)
        by (bit_vector)
        requires
            b <= s,
            s < 64,
    ;
}

proof fn lemma_read_back_is_masked_value(value: u64, bits: usize)
    requires
        write_width(bits) is Some,
        read_width(bits) is Some,
    ensures
        truncate_to_width(value & low_mask(bits), read_width(bits)->Some_0) & low_mask(bits)
            == value & low_mask(bits),
{
    let w = read_width(bits)->Some_0;
    let m = low_mask(bits);
    if w >= 8 {
        assert((value & m) & m == value & m) by (bit_vector);
    } else {
        let s = (8 * w) as u64;
        let wm = ((1u64 << s) - 1) as u64;
        assert(bits as u64 <= s);
        lemma_low_masks_nest(bits as u64, s);
        assert(m & wm == m);
        assert(((value & m) & wm) & m == value & m) by (bit_vector)
            requires
                m & wm == m,
        ;
    }
}

/// On a read-write register, a write of `value` followed by a read of the same
/// number of bits returns `value` cut to those bits, whatever the register held
/// before, when both succeed and the memory behind the port gives the load what
/// the store left there, cut to the width of the load.
pub proof fn lemma_write_then_read(
    bit_width: usize,
    base: Result<u64, DriverError>,
    offset: u64,
    value: u64,
    bits: usize,
    s0: Seq<Access>,
    s1: Seq<Access>,
    s2: Seq<Access>,
    w: Result<usize, DriverError>,
    r: Result<u64, DriverError>,
)
    requires
        w == write_outcome(AccessType::ReadWrite, bit_width, base, bits),
        write_effect(s0, s1, w, base, offset, value, bits),
        read_effect(s1, s2, r, AccessType::ReadWrite, bit_width, base, offset, bits),
        w is Ok,
        r is Ok,
        s2.last()->Read_value == truncate_to_width(
            s1.last()->Write_value,
            s2.last()->Read_width,
        ),
    ensures
        r->Ok_0 == value & low_mask(bits),
{
    lemma_read_back_is_masked_value(value, bits);
}

} // verus!
