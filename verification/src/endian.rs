//! Big-endian 32-bit integers, as the PNG format writes them.

use vstd::prelude::*;

verus! {

/// The four bytes of `value`, most significant first.
#[verifier::opaque]
pub open spec fn be32_bytes(value: u32) -> Seq<u8> {
    seq![
        (value / 0x100_0000) as u8,
        (value / 0x1_0000 % 0x100) as u8,
        (value / 0x100 % 0x100) as u8,
        (value % 0x100) as u8,
    ]
}

/// The integer that the first four bytes of `bytes` spell, most significant
/// first.
#[verifier::opaque]
pub open spec fn be32_value(bytes: Seq<u8>) -> u32
    recommends
        bytes.len() >= 4,
{
    (bytes[0] * 0x100_0000 + bytes[1] * 0x1_0000 + bytes[2] * 0x100 + bytes[3]) as u32
}

/// Reading what was written gives the integer back.
pub proof fn lemma_be32_value_of_bytes(value: u32)
    ensures
        be32_bytes(value).len() == 4,
        be32_value(be32_bytes(value)) == value,
{
    reveal(be32_bytes);
    reveal(be32_value);
}

/// Writing what was read gives the bytes back.
pub proof fn lemma_be32_bytes_of_value(bytes: Seq<u8>)
    requires
        bytes.len() == 4,
    ensures
        be32_bytes(be32_value(bytes)) == bytes,
{
    reveal(be32_bytes);
    reveal(be32_value);
    let (b0, b1, b2, b3) = (bytes[0] as int, bytes[1] as int, bytes[2] as int, bytes[3] as int);
    let value = b0 * 0x100_0000 + b1 * 0x1_0000 + b2 * 0x100 + b3;
    assert(be32_value(bytes) == value);
    assert(value / 0x100_0000 == b0);
    assert(value / 0x1_0000 == b0 * 0x100 + b1);
    assert(value / 0x100 == b0 * 0x1_0000 + b1 * 0x100 + b2);
    assert((b0 * 0x100 + b1) % 0x100 == b1);
    assert((b0 * 0x1_0000 + b1 * 0x100 + b2) % 0x100 == b2);
    assert(value % 0x100 == b3);
    assert(be32_bytes(be32_value(bytes)) =~= bytes);
}

/// The big-endian encoding of `value`.
pub fn be32_encode(value: u32) -> (bytes: [u8; 4])
    ensures
        bytes@ == be32_bytes(value),
{
    let bytes: [u8; 4] = [
        (value / 0x100_0000) as u8,
        (value / 0x1_0000 % 0x100) as u8,
        (value / 0x100 % 0x100) as u8,
        (value % 0x100) as u8,
    ];
    proof {
        reveal(be32_bytes);
        assert(bytes@ =~= be32_bytes(value));
    }
    bytes
}

/// The integer spelled by the four bytes of `bytes` that start at `at`.
pub fn be32_decode(bytes: &[u8], at: usize) -> (value: u32)
    requires
        at + 4 <= bytes@.len(),
    ensures
        value == be32_value(bytes@.subrange(at as int, at + 4)),
{
    proof {
        reveal(be32_value);
    }
    let b0: u32 = bytes[at] as u32;
    let b1: u32 = bytes[at + 1] as u32;
    let b2: u32 = bytes[at + 2] as u32;
    let b3: u32 = bytes[at + 3] as u32;
    b0 * 0x100_0000 + b1 * 0x1_0000 + b2 * 0x100 + b3
}

} // verus!
