//! Plain numbers read from raw bytes in the machine's byte order.
use vstd::endian::{endianness, Endian};
use vstd::prelude::*;

verus! {

/// The number that `bytes` denote with the first byte least significant.
pub open spec fn little_endian_value(bytes: Seq<u8>) -> nat
    decreases bytes.len(),
{
    if bytes.len() == 0 {
        0
    } else {
        bytes[0] as nat + 256 * little_endian_value(bytes.drop_first())
    }
}

/// The number that `bytes` denote in the byte order of the machine running
/// the program.
pub open spec fn native_value(bytes: Seq<u8>) -> nat {
    match endianness() {
        Endian::Little => little_endian_value(bytes),
        Endian::Big => little_endian_value(bytes.reverse()),
    }
}

/// Four bytes read as an unsigned 32-bit number.
pub open spec fn native_u32(bytes: Seq<u8>) -> u32 {
    native_value(bytes) as u32
}

/// Four bytes read as a signed 32-bit number (two's complement).
pub open spec fn native_i32(bytes: Seq<u8>) -> i32 {
    native_u32(bytes) as i32
}

/// Eight bytes read as an unsigned 64-bit number.
pub open spec fn native_u64(bytes: Seq<u8>) -> u64 {
    native_value(bytes) as u64
}

/// `bytemuck::pod_read_unaligned::<u32>`: copies the four bytes into a
/// `u32`, so that they are read in the machine's byte order. It panics
/// unless exactly four bytes are given, which `requires` rules out.
#[verifier::external_body]
pub(crate) fn pod_u32(bytes: &[u8]) -> (value: u32)
    requires
        bytes@.len() == 4,
    ensures
        value == native_u32(bytes@),
{
    bytemuck::pod_read_unaligned::<u32>(bytes)
}

/// `bytemuck::pod_read_unaligned::<i32>`: copies the four bytes into an
/// `i32` in the machine's byte order; panics unless exactly four bytes are
/// given, which `requires` rules out.
#[verifier::external_body]
pub(crate) fn pod_i32(bytes: &[u8]) -> (value: i32)
    requires
        bytes@.len() == 4,
    ensures
        value == native_i32(bytes@),
{
    bytemuck::pod_read_unaligned::<i32>(bytes)
}

/// `bytemuck::pod_read_unaligned::<u64>`: copies the eight bytes into a
/// `u64` in the machine's byte order; panics unless exactly eight bytes are
/// given, which `requires` rules out.
#[verifier::external_body]
pub(crate) fn pod_u64(bytes: &[u8]) -> (value: u64)
    requires
        bytes@.len() == 8,
    ensures
        value == native_u64(bytes@),
{
    bytemuck::pod_read_unaligned::<u64>(bytes)
}

} // verus!
