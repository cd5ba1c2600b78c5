//! The registers of the card, as far as the driver reads them.

use vstd::prelude::*;

verus! {

/// The number that `bytes` spell, most significant byte first.
pub open spec fn be_value(bytes: Seq<u8>) -> nat
    decreases bytes.len(),
{
    if bytes.len() == 0 {
        0
    } else {
        be_value(bytes.drop_last()) * 256 + bytes.last() as nat
    }
}

/// `256^n`: the number of values that `n` bytes spell.
pub open spec fn radix(n: nat) -> nat
    decreases n,
{
    if n == 0 {
        1
    } else {
        256 * radix((n - 1) as nat)
    }
}

/// A number of `n` bytes is below `256^n`.
pub proof fn lemma_be_value_bound(bytes: Seq<u8>)
    ensures
        be_value(bytes) < radix(bytes.len()),
    decreases bytes.len(),
{
    if bytes.len() > 0 {
        lemma_be_value_bound(bytes.drop_last());
    }
}

/// Up to fifteen bytes spell a number below `2^120`.
proof fn lemma_radix_bound(n: nat)
    requires
        n <= 15,
    ensures
        radix(n) <= 0x1_00_0000_0000_0000_0000_0000_0000_0000,
    decreases 15 - n,
{
    if n < 15 {
        lemma_radix_bound(n + 1);
    } else {
        assert(radix(15) == 0x1_00_0000_0000_0000_0000_0000_0000_0000) by {
            reveal_with_fuel(radix, 16);
        }
    }
}

/// The number that up to sixteen bytes spell, most significant byte first.
pub fn from_be_bytes(bytes: &[u8]) -> (value: u128)
    requires
        bytes@.len() <= 16,
    ensures
        value == be_value(bytes@),
{
    let mut value: u128 = 0;
    let mut i: usize = 0;
    while i < bytes.len()
        invariant
            i <= bytes@.len() <= 16,
            value == be_value(bytes@.take(i as int)),
        decreases bytes@.len() - i,
    {
        proof {
            lemma_be_value_bound(bytes@.take(i as int));
            lemma_radix_bound(i as nat);
            assert(bytes@.take(i + 1).drop_last() =~= bytes@.take(i as int));
        }
        value = value * 256 + bytes[i] as u128;
        i += 1;
    }
    proof {
        assert(bytes@.take(i as int) =~= bytes@);
    }
    value
}

/// Whether an operation conditions register says that the card is still powering up: bit
/// 31 is clear while it is.
pub open spec fn ocr_busy(ocr: u32) -> bool {
    ocr & 0x8000_0000 == 0
}

/// Whether an operation conditions register says that the card addresses blocks, not
/// bytes: the card capacity status, bit 30.
pub open spec fn ocr_block_addressed(ocr: u32) -> bool {
    ocr & 0x4000_0000 != 0
}

/// The number of blocks of 512 bytes that a card specific data register tells, by the
/// version of its layout in bits 126 and 127: from the device size and its multiplier in
/// version 0, from the device size of 22 or 28 bits in versions 1 and 2.
pub open spec fn csd_block_count(csd: u128) -> int {
    let version = (csd >> 126) & 3;
    if version == 0 {
        (((csd >> 62) & 0xFFF) + 1) * (1u128 << (((csd >> 47) & 7) + 2) as u128)
    } else if version == 1 {
        (((csd >> 48) & 0x3F_FFFF) + 1) * 1024
    } else if version == 2 {
        (((csd >> 48) & 0xFFF_FFFF) + 1) * 1024
    } else {
        0
    }
}

/// No card specific data register tells more than `2^38` blocks.
pub proof fn lemma_csd_block_count_bound(csd: u128)
    ensures
        0 <= csd_block_count(csd) <= 0x40_0000_0000,
{
    let size0 = (csd >> 62) & 0xFFF;
    let mult = (csd >> 47) & 7;
    let factor = 1u128 << ((mult + 2) as u128);
    assert(size0 <= 0xFFF) by (bit_vector)
        requires
            size0 == (csd >> 62) & 0xFFF,
    ;
    assert(factor <= 512) by (bit_vector)
        requires
            mult == (csd >> 47) & 7,
            factor == 1u128 << ((mult + 2) as u128),
    ;
    assert((size0 + 1) * factor <= 0x40_0000_0000) by (nonlinear_arith)
        requires
            size0 <= 0xFFF,
            factor <= 512,
    ;
    assert((csd >> 48) & 0x3F_FFFF <= 0x3F_FFFF) by (bit_vector);
    assert((csd >> 48) & 0xFFF_FFFF <= 0xFFF_FFFF) by (bit_vector);
}

/// Whether the card is still powering up.
///
/// Wraps `sdio_host::sd::OCR::is_busy` on the register made by `From<u32>`, which keeps the
/// word: the card is busy while bit 31 of the word is clear.
#[verifier::external_body]
pub(crate) fn is_busy(ocr: u32) -> (busy: bool)
    ensures
        busy == ocr_busy(ocr),
{
    sdio_host::sd::OCR::<sdio_host::sd::SD>::from(ocr).is_busy()
}

/// Whether the card addresses blocks.
///
/// Wraps `sdio_host::sd::OCR::high_capacity` on the register made by `From<u32>`, which
/// keeps the word: the answer is bit 30 of the word.
#[verifier::external_body]
pub(crate) fn high_capacity(ocr: u32) -> (high: bool)
    ensures
        high == ocr_block_addressed(ocr),
{
    sdio_host::sd::OCR::<sdio_host::sd::SD>::from(ocr).high_capacity()
}

/// The number of blocks of the card.
///
/// Wraps `sdio_host::sd::CSD::block_count` on the register made by `From<u128>`, which
/// keeps the word. By the version in bits 126 and 127 of the word, the count is: in version
/// 0, the twelve bits from bit 62 on plus one, times two to the power of the three bits from
/// bit 47 on plus two; in version 1, the 22 bits from bit 48 on plus one, times 1024; in
/// version 2, the same with 28 bits; and 0 in version 3.
#[verifier::external_body]
pub(crate) fn block_count(csd: u128) -> (count: u64)
    ensures
        count == csd_block_count(csd),
{
    sdio_host::sd::CSD::<sdio_host::sd::SD>::from(csd).block_count()
}

} // verus!
