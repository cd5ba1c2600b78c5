use embedded_block_io::sdspi::command::{frame, Command};
use embedded_block_io::sdspi::crc::{crc16, crc7};

/// The table of the CRC-7 with generator x^7 + x^3 + 1: the entry of a byte is the
/// remainder of the byte times x^7.
fn crc7_table() -> [u8; 256] {
    let mut table = [0u8; 256];
    for (i, entry) in table.iter_mut().enumerate() {
        // divide i * x^7 by the generator 0b10001001, bit by bit
        let mut remainder: u32 = (i as u32) << 7;
        for bit in (7..15).rev() {
            if remainder & (1 << bit) != 0 {
                remainder ^= 0x89 << (bit - 7);
            }
        }
        *entry = remainder as u8;
    }
    table
}

fn crc7_by_table(table: &[u8; 256], data: &[u8]) -> u8 {
    let mut crc = 0u8;
    for &byte in data {
        crc = table[((crc << 1) ^ byte) as usize];
    }
    crc
}

/// The table of the CRC-16 with generator x^16 + x^12 + x^5 + 1.
fn crc16_table() -> [u16; 256] {
    let mut table = [0u16; 256];
    for (i, entry) in table.iter_mut().enumerate() {
        let mut remainder: u32 = (i as u32) << 16;
        for bit in (16..24).rev() {
            if remainder & (1 << bit) != 0 {
                remainder ^= 0x11021 << (bit - 16);
            }
        }
        *entry = remainder as u16;
    }
    table
}

fn crc16_by_table(table: &[u16; 256], data: &[u8]) -> u16 {
    let mut crc = 0u16;
    for &byte in data {
        crc = (crc << 8) ^ table[((crc >> 8) as u8 ^ byte) as usize];
    }
    crc
}

fn pseudo_random(seed: &mut u32) -> u8 {
    *seed = seed.wrapping_mul(1664525).wrapping_add(1013904223);
    (*seed >> 24) as u8
}

#[test]
fn crc7_of_known_inputs() {
    assert_eq!(crc7(&[]), 0x00);
    // the headers of CMD0 and CMD8, whose frames end in 0x95 and 0x87
    assert_eq!(crc7(&[0x40, 0, 0, 0, 0]), 0x4A);
    assert_eq!(crc7(&[0x48, 0, 0, 0x01, 0xAA]), 0x43);
    assert_eq!(crc7(&[0x77, 0, 0, 0, 0]), 0x32);
    assert_eq!(crc7(&[0x69, 0x40, 0, 0, 0]), 0x3B);
    assert_eq!(crc7(&[0x7A, 0, 0, 0, 0]), 0x7E);
    // the check value of the CRC-7 of the MMC standard is 0x75
    assert_eq!(crc7(b"123456789"), 0x75);
}

#[test]
fn crc16_of_known_inputs() {
    assert_eq!(crc16(&[]), 0);
    // the check value of the CRC-16 with this generator and a zero start is 0x31C3
    assert_eq!(crc16(b"123456789"), 0x31C3);
    assert_eq!(crc16(&[0xFF; 512]), 0x7FA1);
    assert_eq!(crc16(&[0x00; 512]), 0x0000);
}

#[test]
fn crc7_agrees_with_the_table_on_single_bytes() {
    let table = crc7_table();
    for byte in 0..=255u8 {
        assert_eq!(crc7(&[byte]), table[byte as usize], "byte {byte}");
        assert!(crc7(&[byte]) < 0x80);
        assert_eq!(crc7(&[byte]), crc7_by_table(&table, &[byte]));
    }
}

#[test]
fn crc16_agrees_with_the_table_on_single_bytes() {
    let table = crc16_table();
    for byte in 0..=255u8 {
        assert_eq!(crc16(&[byte]), table[byte as usize], "byte {byte}");
    }
}

#[test]
fn crcs_agree_with_the_tables_on_random_inputs() {
    let table7 = crc7_table();
    let table16 = crc16_table();
    let mut seed = 2024u32;
    for round in 0..300usize {
        let len = (pseudo_random(&mut seed) as usize * 3 + round) % 700;
        let data: Vec<u8> = (0..len).map(|_| pseudo_random(&mut seed)).collect();
        assert_eq!(crc7(&data), crc7_by_table(&table7, &data));
        assert_eq!(crc16(&data), crc16_by_table(&table16, &data));
    }
}

#[test]
fn frames_of_commands() {
    assert_eq!(frame(Command { cmd: 0, arg: 0 }), [0x40, 0, 0, 0, 0, 0x95]);
    assert_eq!(frame(Command { cmd: 8, arg: 0x1AA }), [0x48, 0, 0, 0x01, 0xAA, 0x87]);
    assert_eq!(frame(Command { cmd: 55, arg: 0 }), [0x77, 0, 0, 0, 0, 0x65]);
    assert_eq!(frame(Command { cmd: 41, arg: 0x4000_0000 }), [0x69, 0x40, 0, 0, 0, 0x77]);
    assert_eq!(frame(Command { cmd: 58, arg: 0 }), [0x7A, 0, 0, 0, 0, 0xFD]);
    // the argument goes out with its most significant byte first
    let f = frame(Command { cmd: 17, arg: 0x1234_5678 });
    assert_eq!(&f[..5], &[0x51, 0x12, 0x34, 0x56, 0x78]);
    assert_eq!(f[5], (crc7(&f[..5]) << 1) | 1);
    assert_eq!(f[5] & 1, 1);
    // only six bits of the index go out
    assert_eq!(frame(Command { cmd: 0xC0 | 17, arg: 0x1234_5678 }), f);
}
