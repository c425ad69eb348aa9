//! Values that arrive as raw bytes: the device number and the list of layout
//! modifiers, both in the byte order of the machine.

use vstd::prelude::*;

verus! {

/// The number that eight bytes hold when the first byte counts least.
pub open spec fn le_value(bytes: Seq<u8>) -> int {
    bytes[0] + bytes[1] * 0x100 + bytes[2] * 0x1_0000 + bytes[3] * 0x100_0000 + bytes[4]
        * 0x1_0000_0000 + bytes[5] * 0x100_0000_0000 + bytes[6] * 0x1_0000_0000_0000 + bytes[7]
        * 0x100_0000_0000_0000
}

/// The number that eight bytes hold when the first byte counts most.
pub open spec fn be_value(bytes: Seq<u8>) -> int {
    bytes[7] + bytes[6] * 0x100 + bytes[5] * 0x1_0000 + bytes[4] * 0x100_0000 + bytes[3]
        * 0x1_0000_0000 + bytes[2] * 0x100_0000_0000 + bytes[1] * 0x1_0000_0000_0000 + bytes[0]
        * 0x100_0000_0000_0000
}

/// The eight bytes that make up item `i` of a list that is read from
/// `bytes`: the bytes from `8 * i` on, with zeros after the last one.
pub open spec fn item_bytes(bytes: Seq<u8>, i: int) -> Seq<u8> {
    Seq::new(
        8,
        |k: int|
            if 8 * i + k < bytes.len() {
                bytes[8 * i + k]
            } else {
                0u8
            },
    )
}

/// Number of eight-byte items that `len` bytes make, the last one filled up.
pub open spec fn item_count(len: nat) -> nat {
    ((len + 7) / 8) as nat
}

/// Every item of `values` is what its bytes hold with the first byte
/// counting least.
pub open spec fn read_as_le(bytes: Seq<u8>, values: Seq<u64>) -> bool {
    forall|i: int| 0 <= i < values.len() ==> #[trigger] values[i] == le_value(item_bytes(bytes, i))
}

/// Every item of `values` is what its bytes hold with the first byte
/// counting most.
pub open spec fn read_as_be(bytes: Seq<u8>, values: Seq<u64>) -> bool {
    forall|i: int| 0 <= i < values.len() ==> #[trigger] values[i] == be_value(item_bytes(bytes, i))
}

/// `values` is `bytes` read as a list of 64-bit numbers in one of the two
/// byte orders that a machine can have.
pub open spec fn is_list_of(bytes: Seq<u8>, values: Seq<u64>) -> bool {
    &&& values.len() == item_count(bytes.len())
    &&& read_as_le(bytes, values) || read_as_be(bytes, values)
}

/// `value` is what the eight bytes hold in one of the two byte orders that a
/// machine can have.
pub open spec fn is_value_of(bytes: Seq<u8>, value: u64) -> bool {
    value == le_value(bytes) || value == be_value(bytes)
}

/// Calls `bytemuck::pod_read_unaligned` for a `u64`. That function copies
/// the bytes into the number as they lie in memory, so the result is the
/// bytes read in the machine's byte order; which of the two orders that is,
/// the contract leaves open. It panics on a slice that is not eight bytes
/// long, which `requires` leaves out.
#[verifier::external_body]
fn read_u64(bytes: &[u8]) -> (value: u64)
    requires
        bytes@.len() == 8,
    ensures
        is_value_of(bytes@, value),
{
    bytemuck::pod_read_unaligned::<u64>(bytes)
}

/// Calls `bytemuck::pod_collect_to_vec` from bytes to `u64`s. That function
/// makes a zeroed vector of as many numbers as hold all the bytes and copies
/// the bytes over its memory, so each number is eight bytes of the input in
/// the machine's byte order, and the last one is filled up with zeros.
#[verifier::external_body]
fn collect_u64s(bytes: &[u8]) -> (values: Vec<u64>)
    ensures
        is_list_of(bytes@, values@),
{
    bytemuck::pod_collect_to_vec::<u8, u64>(bytes)
}

/// Reads a device number from the bytes that the compositor sent. There is
/// one only if exactly eight bytes came.
pub fn device_from_bytes(bytes: &[u8]) -> (device: Option<u64>)
    ensures
        device is Some <==> bytes@.len() == 8,
        device matches Some(d) ==> is_value_of(bytes@, d),
{
    if bytes.len() == 8 {
        Some(read_u64(bytes))
    } else {
        None
    }
}

/// Reads the list of layout modifiers from the bytes that the compositor
/// sent: one modifier for every eight bytes, and one more, filled up with
/// zeros, for what is left over.
pub fn modifiers_from_bytes(bytes: &[u8]) -> (modifiers: Vec<u64>)
    ensures
        is_list_of(bytes@, modifiers@),
{
    collect_u64s(bytes)
}

} // verus!
