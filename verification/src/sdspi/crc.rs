//! Checksums of the SD bus: CRC-7 on command frames, CRC-16 on data blocks.

use vstd::prelude::*;

verus! {

/// One step of the CRC-16 shift register with generator `x^16 + x^12 + x^5 + 1`.
/// The message bit has already been added to the top bit of `crc`.
pub open spec fn crc16_shift(crc: u16) -> u16 {
    if crc & 0x8000 != 0 {
        (crc << 1) ^ 0x1021
    } else {
        crc << 1
    }
}

/// The register after the eight bits of `byte` went in, most significant bit first.
pub open spec fn crc16_update(crc: u16, byte: u8) -> u16 {
    let c0 = crc ^ ((byte as u16) << 8);
    let c1 = crc16_shift(c0);
    let c2 = crc16_shift(c1);
    let c3 = crc16_shift(c2);
    let c4 = crc16_shift(c3);
    let c5 = crc16_shift(c4);
    let c6 = crc16_shift(c5);
    let c7 = crc16_shift(c6);
    crc16_shift(c7)
}

/// CRC-16 of `data`: the remainder of the message polynomial times `x^16`,
/// divided by `x^16 + x^12 + x^5 + 1`, starting from a zero register.
pub open spec fn crc16_of(data: Seq<u8>) -> u16
    decreases data.len(),
{
    if data.len() == 0 {
        0
    } else {
        crc16_update(crc16_of(data.drop_last()), data.last())
    }
}

proof fn lemma_crc16_byte(crc: u16, byte: u8)
    ensures
        ({
            let a = ((crc >> 8) & 0xFF) | (crc << 8);
            let b = a ^ (byte as u16);
            let c = b ^ ((b & 0xFF) >> 4);
            let d = c ^ (c << 12);
            d ^ ((d & 0xFF) << 5)
        }) == crc16_update(crc, byte),
{
    assert(({
        let a = ((crc >> 8) & 0xFF) | (crc << 8);
        let b = a ^ (byte as u16);
        let c = b ^ ((b & 0xFF) >> 4);
        let d = c ^ (c << 12);
        d ^ ((d & 0xFF) << 5)
    }) == crc16_update(crc, byte)) by (bit_vector);
}

/// CRC-16 of a data block, as sent after the block on the bus.
pub fn crc16(data: &[u8]) -> (crc: u16)
    ensures
        crc == crc16_of(data@),
{
    let mut crc: u16 = 0;
    let mut i: usize = 0;
    while i < data.len()
        invariant
            i <= data.len(),
            crc == crc16_of(data@.take(i as int)),
        decreases data.len() - i,
    {
        let byte: u8 = data[i];
        proof {
            lemma_crc16_byte(crc, byte);
            assert(data@.take(i + 1).drop_last() =~= data@.take(i as int));
        }
        crc = ((crc >> 8) & 0xFF) | (crc << 8);
        crc ^= byte as u16;
        crc ^= (crc & 0xFF) >> 4;
        crc ^= crc << 12;
        crc ^= (crc & 0xFF) << 5;
        i += 1;
    }
    proof {
        assert(data@.take(i as int) =~= data@);
    }
    crc
}

/// One step of the CRC-7 shift register with generator `x^7 + x^3 + 1`: the register of seven
/// bits moves up by one, and the generator is added where the bit that left it differs from
/// the message bit.
pub open spec fn crc7_shift(crc: u8, bit: bool) -> u8 {
    let shifted = (crc << 1) & 0x7F;
    if (crc & 0x40 != 0) != bit {
        shifted ^ 0x09
    } else {
        shifted
    }
}

/// The register after the first `bits` bits of `byte` went in, most significant bit first.
pub open spec fn crc7_bits(crc: u8, byte: u8, bits: nat) -> u8
    decreases bits,
{
    if bits == 0 {
        crc
    } else {
        let k = (bits - 1) as u8;
        crc7_shift(crc7_bits(crc, byte, (bits - 1) as nat), byte & (0x80u8 >> k) != 0)
    }
}

/// CRC-7 of `data`: the remainder of the message polynomial times `x^7`, divided by
/// `x^7 + x^3 + 1`, starting from a zero register.
pub open spec fn crc7_of(data: Seq<u8>) -> u8
    decreases data.len(),
{
    if data.len() == 0 {
        0
    } else {
        crc7_bits(crc7_of(data.drop_last()), data.last(), 8)
    }
}

/// The last byte of a command frame whose first bytes are `data`: their CRC-7 in the upper
/// seven bits, and the end bit.
pub open spec fn crc7_byte(data: Seq<u8>) -> u8 {
    (crc7_of(data) << 1) | 1
}

proof fn lemma_crc7_bit(crc: u8, d: u8, byte: u8, k: u8)
    requires
        k < 8,
        d == byte << k,
    ensures
        ({
            let c = crc << 1;
            if ((d & 0x80) ^ (c & 0x80)) != 0 {
                c ^ 0x09
            } else {
                c
            }
        }) & 0x7F == crc7_shift(crc & 0x7F, byte & (0x80u8 >> k) != 0),
        d << 1 == byte << ((k + 1) as u8),
{
    assert(({
        let c = crc << 1;
        if ((d & 0x80) ^ (c & 0x80)) != 0 {
            c ^ 0x09
        } else {
            c
        }
    }) & 0x7F == crc7_shift(crc & 0x7F, byte & (0x80u8 >> k) != 0)) by (bit_vector)
        requires
            k < 8,
            d == byte << k,
    ;
    assert(d << 1 == byte << ((k + 1) as u8)) by (bit_vector)
        requires
            k < 8,
            d == byte << k,
    ;
}

/// The CRC-7 of `data`, a value of seven bits.
pub fn crc7(data: &[u8]) -> (crc: u8)
    ensures
        crc == crc7_of(data@),
        crc < 0x80,
{
    let mut crc: u8 = 0;
    let mut i: usize = 0;
    assert(0u8 & 0x7F == 0) by (bit_vector);
    while i < data.len()
        invariant
            i <= data.len(),
            crc & 0x7F == crc7_of(data@.take(i as int)),
        decreases data.len() - i,
    {
        let byte = data[i];
        let mut d = byte;
        let mut bit: u8 = 0;
        let ghost start = crc & 0x7F;
        assert(byte << 0u8 == byte) by (bit_vector);
        while bit < 8
            invariant
                bit <= 8,
                d == byte << bit,
                crc & 0x7F == crc7_bits(start, byte, bit as nat),
            decreases 8 - bit,
        {
            proof {
                lemma_crc7_bit(crc, d, byte, bit);
            }
            crc <<= 1;
            if ((d & 0x80) ^ (crc & 0x80)) != 0 {
                crc ^= 0x09;
            }
            d <<= 1;
            bit += 1;
        }
        proof {
            assert(data@.take(i + 1).drop_last() =~= data@.take(i as int));
        }
        i += 1;
    }
    proof {
        assert(data@.take(i as int) =~= data@);
        let c = crc;
        assert(c & 0x7F < 0x80) by (bit_vector);
    }
    crc & 0x7F
}

/// The CRC-16 can be had from a table of 256 entries, the registers that a single byte
/// leaves behind a zero register: a byte moves the register up by eight bits and adds the
/// entry of the byte plus the register's upper half.
pub proof fn lemma_crc16_table(crc: u16, byte: u8)
    ensures
        crc16_update(crc, byte) == (crc << 8) ^ crc16_update(0, ((crc >> 8) as u8) ^ byte),
{
    assert(crc16_update(crc, byte) == (crc << 8) ^ crc16_update(0, ((crc >> 8) as u8) ^ byte))
        by (bit_vector);
}

/// The CRC-7 can be had from a table of 256 entries, the registers that a single byte
/// leaves behind a zero register: the register after a byte is the entry of the byte plus
/// the register moved up by one bit.
pub proof fn lemma_crc7_table(crc: u8, byte: u8)
    requires
        crc < 0x80,
    ensures
        crc7_bits(crc, byte, 8) == crc7_bits(0, (crc << 1) ^ byte, 8),
{
    let index = (crc << 1) ^ byte;
    lemma_crc7_unrolled(crc, byte);
    lemma_crc7_unrolled(0, index);
    assert(crc7_unrolled(crc, byte) == crc7_unrolled(0, index)) by (bit_vector)
        requires
            crc < 0x80,
            index == (crc << 1) ^ byte,
    ;
}

proof fn lemma_crc7_unrolled(crc: u8, byte: u8)
    ensures
        crc7_bits(crc, byte, 8) == crc7_unrolled(crc, byte),
{
    reveal_with_fuel(crc7_bits, 9);
    assert(0x80u8 >> 0u8 == 0x80 && 0x80u8 >> 1u8 == 0x40 && 0x80u8 >> 2u8 == 0x20 && 0x80u8
        >> 3u8 == 0x10 && 0x80u8 >> 4u8 == 0x08 && 0x80u8 >> 5u8 == 0x04 && 0x80u8 >> 6u8 == 0x02
        && 0x80u8 >> 7u8 == 0x01) by (bit_vector);
}

/// The eight steps of the CRC-7 for one byte, written out.
spec fn crc7_unrolled(crc: u8, byte: u8) -> u8 {
    let c1 = crc7_shift(crc, byte & 0x80 != 0);
    let c2 = crc7_shift(c1, byte & 0x40 != 0);
    let c3 = crc7_shift(c2, byte & 0x20 != 0);
    let c4 = crc7_shift(c3, byte & 0x10 != 0);
    let c5 = crc7_shift(c4, byte & 0x08 != 0);
    let c6 = crc7_shift(c5, byte & 0x04 != 0);
    let c7 = crc7_shift(c6, byte & 0x02 != 0);
    crc7_shift(c7, byte & 0x01 != 0)
}

} // verus!
