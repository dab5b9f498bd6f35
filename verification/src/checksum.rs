//! The CRC-32 checksum that guards every chunk.
//!
//! The checksum is computed by the `crc` crate. What it computes is written
//! down here as that crate computes it, register shift by register shift, so
//! that what the checksum can tell apart is proved rather than assumed.

use vstd::prelude::*;

verus! {

/// The generator polynomial of CRC-32/ISO-HDLC, bits reversed.
pub const POLY: u32 = 0xedb8_8320;

/// What the register holds before the first byte is read.
pub const INIT: u32 = 0xffff_ffff;

/// What the register is combined with once the last byte is read.
pub const XOROUT: u32 = 0xffff_ffff;

/// One shift of the register: the bit that leaves at the low end decides
/// whether the polynomial is added.
pub open spec fn shift(value: u32) -> u32 {
    (value >> 1) ^ (((value & 1) * POLY) as u32)
}

/// Eight shifts of the register: one entry of the table of 256.
pub open spec fn table_entry(index: u32) -> u32 {
    shift(shift(shift(shift(shift(shift(shift(shift(index))))))))
}

/// The register after one more byte.
pub open spec fn update_byte(crc: u32, byte: u8) -> u32 {
    table_entry((crc ^ byte as u32) & 0xff) ^ (crc >> 8)
}

/// The register after `bytes`, read in their order.
pub open spec fn update(crc: u32, bytes: Seq<u8>) -> u32
    decreases bytes.len(),
{
    if bytes.len() == 0 {
        crc
    } else {
        update_byte(update(crc, bytes.drop_last()), bytes.last())
    }
}

/// The CRC-32/ISO-HDLC checksum of `bytes`.
pub open spec fn crc32_iso_hdlc(bytes: Seq<u8>) -> u32 {
    update(INIT, bytes) ^ XOROUT
}

/// Calls `crc::Crc::<u32>::new(&crc::CRC_32_ISO_HDLC).checksum(bytes)`.
///
/// Trusted: the result is the CRC-32/ISO-HDLC checksum of the bytes, as
/// `crc32_iso_hdlc` spells it out. The `crc` crate starts from `INIT`, takes
/// the register through its table byte by byte as `update_byte` does, fills
/// that table as `table_entry` does, and combines the result with `XOROUT`.
#[verifier::external_body]
pub(crate) fn crc32(bytes: &[u8]) -> (sum: u32)
    ensures
        sum == crc32_iso_hdlc(bytes@),
{
    crc::Crc::<u32>::new(&crc::CRC_32_ISO_HDLC).checksum(bytes)
}

/// Two registers that differ still differ after the same byte, and one
/// register is taken to different registers by different bytes.
pub proof fn lemma_update_byte_tells(crc1: u32, byte1: u8, crc2: u32, byte2: u8)
    requires
        crc1 != crc2 && byte1 == byte2 || crc1 == crc2 && byte1 != byte2,
    ensures
        update_byte(crc1, byte1) != update_byte(crc2, byte2),
{
    assert((crc1 != crc2 && byte1 == byte2 || crc1 == crc2 && byte1 != byte2) ==> update_byte(
        crc1,
        byte1,
    ) != update_byte(crc2, byte2)) by (bit_vector);
}

/// The checksum tells apart any two byte strings of one length that differ
/// in one byte only, by one bit of it or by more.
pub proof fn lemma_checksum_tells_one_byte(left: Seq<u8>, right: Seq<u8>, at: int)
    requires
        left.len() == right.len(),
        0 <= at < left.len(),
        left[at] != right[at],
        forall|i: int| 0 <= i < left.len() && i != at ==> left[i] == right[i],
    ensures
        crc32_iso_hdlc(left) != crc32_iso_hdlc(right),
{
    lemma_update_tells_one_byte(INIT, left, right, at);
    let (l, r) = (update(INIT, left), update(INIT, right));
    assert(l != r ==> l ^ XOROUT != r ^ XOROUT) by (bit_vector);
}

/// From one register, two byte strings of one length that differ in one byte
/// only lead to different registers.
proof fn lemma_update_tells_one_byte(crc: u32, left: Seq<u8>, right: Seq<u8>, at: int)
    requires
        left.len() == right.len(),
        0 <= at < left.len(),
        left[at] != right[at],
        forall|i: int| 0 <= i < left.len() && i != at ==> left[i] == right[i],
    ensures
        update(crc, left) != update(crc, right),
    decreases left.len(),
{
    let last = left.len() - 1;
    if at == last {
        assert(left.drop_last() =~= right.drop_last());
        lemma_update_byte_tells(
            update(crc, left.drop_last()),
            left.last(),
            update(crc, right.drop_last()),
            right.last(),
        );
    } else {
        lemma_update_tells_one_byte(crc, left.drop_last(), right.drop_last(), at);
        lemma_update_byte_tells(
            update(crc, left.drop_last()),
            left.last(),
            update(crc, right.drop_last()),
            right.last(),
        );
    }
}

/// The checksum of the digits `123456789` is the check value that the
/// catalogue of CRC algorithms gives for CRC-32/ISO-HDLC.
pub proof fn lemma_check_value()
    ensures
        crc32_iso_hdlc(seq![0x31u8, 0x32u8, 0x33u8, 0x34u8, 0x35u8, 0x36u8, 0x37u8, 0x38u8, 0x39u8])
            == 0xcbf4_3926,
{
    let digits = seq![0x31u8, 0x32u8, 0x33u8, 0x34u8, 0x35u8, 0x36u8, 0x37u8, 0x38u8, 0x39u8];
    assert(update(INIT, digits.take(0)) == INIT);
    assert(update_byte(0xffff_ffff, 0x31) == 0x7c23_1048) by (bit_vector);
    lemma_update_take(INIT, digits, 1);
    assert(update_byte(0x7c23_1048, 0x32) == 0xb0ac_bb32) by (bit_vector);
    lemma_update_take(INIT, digits, 2);
    assert(update_byte(0xb0ac_bb32, 0x33) == 0x77b7_9c2d) by (bit_vector);
    lemma_update_take(INIT, digits, 3);
    assert(update_byte(0x77b7_9c2d, 0x34) == 0x641c_1f5c) by (bit_vector);
    lemma_update_take(INIT, digits, 4);
    assert(update_byte(0x641c_1f5c, 0x35) == 0x340a_c5e3) by (bit_vector);
    lemma_update_take(INIT, digits, 5);
    assert(update_byte(0x340a_c5e3, 0x36) == 0xf68d_2c9e) by (bit_vector);
    lemma_update_take(INIT, digits, 6);
    assert(update_byte(0xf68d_2c9e, 0x37) == 0xaffc_9660) by (bit_vector);
    lemma_update_take(INIT, digits, 7);
    assert(update_byte(0xaffc_9660, 0x38) == 0x651f_2550) by (bit_vector);
    lemma_update_take(INIT, digits, 8);
    assert(update_byte(0x651f_2550, 0x39) == 0x340b_c6d9) by (bit_vector);
    lemma_update_take(INIT, digits, 9);
    assert(digits.take(9) =~= digits);
    assert(0x340b_c6d9u32 ^ 0xffff_ffffu32 == 0xcbf4_3926u32) by (bit_vector);
}

/// The checksum of the letters `IEND` is the one that closes every PNG file.
pub proof fn lemma_end_checksum()
    ensures
        crc32_iso_hdlc(seq![0x49u8, 0x45u8, 0x4eu8, 0x44u8]) == 0xae42_6082,
{
    let letters = seq![0x49u8, 0x45u8, 0x4eu8, 0x44u8];
    assert(update(INIT, letters.take(0)) == INIT);
    assert(update_byte(0xffff_ffff, 0x49) == 0x22fde946) by (bit_vector);
    lemma_update_take(INIT, letters, 1);
    assert(update_byte(0x22fde946, 0x45) == 0x992bac53) by (bit_vector);
    lemma_update_take(INIT, letters, 2);
    assert(update_byte(0x992bac53, 0x4e) == 0x639f4775) by (bit_vector);
    lemma_update_take(INIT, letters, 3);
    assert(update_byte(0x639f4775, 0x44) == 0x51bd9f7d) by (bit_vector);
    lemma_update_take(INIT, letters, 4);
    assert(letters.take(4) =~= letters);
    assert(0x51bd9f7du32 ^ 0xffff_ffffu32 == 0xae42_6082u32) by (bit_vector);
}

/// The register after the first `n` bytes is the register after the first
/// `n - 1`, taken one byte further.
proof fn lemma_update_take(crc: u32, bytes: Seq<u8>, n: int)
    requires
        0 < n <= bytes.len(),
    ensures
        update(crc, bytes.take(n)) == update_byte(update(crc, bytes.take(n - 1)), bytes[n - 1]),
{
    assert(bytes.take(n).drop_last() =~= bytes.take(n - 1));
}

} // verus!
