//! A driver for SD cards on an SPI bus.
//!
//! The driver holds the protocol and leaves the bus to its caller: [`SdSpi::init`],
//! [`SdSpi::read`] and [`SdSpi::write`] begin an operation and answer with the first
//! [`Action`] to perform on the bus, and [`SdSpi::advance`] takes the [`Event`] that came
//! of an action and answers with the next one, until the action is [`Action::Done`].

pub mod command;
pub mod crc;
pub mod driver;
pub mod laws;
pub mod protocol;
pub mod registers;

pub use driver::SdSpi;
pub use protocol::{Action, Event, Timer};

use vstd::prelude::*;

verus! {

/// Status for card in the ready state
pub const R1_READY_STATE: u8 = 0x00;

/// Status for card in the idle state
pub const R1_IDLE_STATE: u8 = 0x01;

/// Status bit for illegal command
pub const R1_ILLEGAL_COMMAND: u8 = 0x04;

/// Start data token for read or write single block
pub const DATA_START_BLOCK: u8 = 0xFE;

/// Stop token for write multiple blocks
pub const STOP_TRAN_TOKEN: u8 = 0xFD;

/// Start data token for write multiple blocks
pub const WRITE_MULTIPLE_TOKEN: u8 = 0xFC;

/// Mask for data response tokens after a write block operation
pub const DATA_RES_MASK: u8 = 0x1F;

/// Write data accepted token
pub const DATA_RES_ACCEPTED: u8 = 0x05;

/// What can go wrong between the driver and the card.
#[derive(Copy, Clone, Debug, PartialEq, Eq)]
#[non_exhaustive]
pub enum Error {
    /// The chip select line could not be driven.
    ChipSelect,
    /// A transfer on the bus failed, or the bus answered what was not asked.
    SpiError,
    /// The card did not answer in time.
    Timeout,
    /// The card rejects CMD8: it is older than version 2 of the SD standard.
    UnsupportedCard,
    /// The card rejected CMD58.
    Cmd58Error,
    /// The card did not accept CMD59.
    Cmd59Error,
    /// A register or data block was not announced by the start token, but by this byte; or
    /// a command to send a register was answered with this status.
    RegisterError(u8),
    /// A data block came with the first CRC-16, and has the second.
    CrcMismatch(u16, u16),
    /// The card was not initialized.
    NotInitialized,
    /// The card did not accept a data block, or reports an error after the write.
    WriteError,
}

/// Types of SD Card
#[derive(Copy, Clone, Debug, PartialEq, Eq)]
pub enum CardCapacity {
    /// SDSC / Standard Capacity (<= 2GB): data is addressed by byte.
    StandardCapacity,
    /// SDHC / High capacity: data is addressed by block.
    HighCapacity,
}

impl Default for CardCapacity {
    fn default() -> (c: Self)
        ensures
            c == CardCapacity::StandardCapacity,
    {
        CardCapacity::StandardCapacity
    }
}

/// SD Card
#[derive(Clone, Copy, Debug)]
pub struct Card {
    /// The type of this card
    pub card_type: CardCapacity,
    /// Operation Conditions Register
    pub ocr: u32,
    /// Relative Card Address
    pub rca: u32,
    /// Card ID
    pub cid: u128,
    /// Card Specific Data
    pub csd: u128,
}

impl Default for Card {
    fn default() -> (c: Self)
        ensures
            c == (Card {
                card_type: CardCapacity::StandardCapacity,
                ocr: 0,
                rca: 0,
                cid: 0,
                csd: 0,
            }),
    {
        Card { card_type: CardCapacity::StandardCapacity, ocr: 0, rca: 0, cid: 0, csd: 0 }
    }
}

impl Card {
    /// Size in bytes
    pub fn size(&self) -> (bytes: u64)
        ensures
            bytes == registers::csd_block_count(self.csd) * 512,
    {
        proof {
            registers::lemma_csd_block_count_bound(self.csd);
        }
        registers::block_count(self.csd) * 512
    }
}

/// What the bus has to send before [`SdSpi::init`], with the card not selected: ten bytes
/// of ones, which are 80 clock cycles, where the card needs 74 to power up.
pub fn sd_init() -> (clocks: [u8; 10])
    ensures
        forall|i: int| 0 <= i < 10 ==> clocks@[i] == 0xFF,
{
    [0xFF; 10]
}

} // verus!
