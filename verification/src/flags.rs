//! Mapping flags as bits.
use axaddrspace::MappingFlags;
use vstd::prelude::*;

verus! {

pub const READ: usize = 0x1;

pub const WRITE: usize = 0x2;

pub const DEVICE: usize = 0x10;

/// Every bit of `bits` is a flag: read, write, execute, user, device, uncached,
/// from the lowest bit up.
pub open spec fn known_flags(bits: usize) -> bool {
    bits < 0x40
}

/// The device flag is among `bits`.
pub open spec fn has_device(bits: usize) -> bool {
    (bits / 0x10) % 2 == 1
}

/// The flags of memory that belongs to a passed-through device.
pub open spec fn device_memory() -> usize {
    0x13
}

/// The mapping flags that `bits` denote, by `MappingFlags::from_bits` of
/// `axaddrspace`.
///
/// Trusted: it gives the flags with the same bits where every set bit is a flag,
/// and `None` where a bit is set that is none.
#[verifier::external_body]
pub(crate) fn mapping_flags(bits: usize) -> (r: Option<usize>)
    ensures
        r == (if known_flags(bits) {
            Some(bits)
        } else {
            None
        }),
{
    match MappingFlags::from_bits(bits) {
        Some(flags) => Some(flags.bits()),
        None => None,
    }
}

/// Whether the device flag is among `flags`.
pub fn is_device(flags: usize) -> (r: bool)
    ensures
        r == has_device(flags),
        r <==> flags & 0x10usize != 0,
{
    assert(flags & 0x10usize != 0 <==> flags & 0x10usize == 0x10) by (bit_vector);
    assert((flags & 0x10 == 0x10) == ((flags / 0x10) % 2 == 1)) by (bit_vector);
    flags & DEVICE == DEVICE
}

/// The flags of memory that belongs to a passed-through device: it is readable
/// and writable device memory.
pub fn device_memory_flags() -> (r: usize)
    ensures
        r == device_memory(),
        r == 0x13,
{
    assert(0x10usize | 0x1usize | 0x2usize == 0x13usize) by (bit_vector);
    DEVICE | READ | WRITE
}

/// The flags are the six lowest bits, of which the fifth marks device memory; memory of
/// a passed-through device can be read and written, and has no other flag.
pub proof fn law_flags_are_bits(bits: usize)
    ensures
        known_flags(bits) <==> bits & !0x3fusize == 0,
        has_device(bits) <==> bits & 0x10usize != 0,
        device_memory() == 0x1usize | 0x2usize | 0x10usize,
        known_flags(device_memory()),
        has_device(device_memory()),
{
    assert(bits < 0x40 <==> bits & !0x3fusize == 0) by (bit_vector);
    assert((bits / 0x10) % 2 == 1 <==> bits & 0x10usize != 0) by (bit_vector);
    assert(0x1usize | 0x2usize | 0x10usize == 0x13usize) by (bit_vector);
}

} // verus!
