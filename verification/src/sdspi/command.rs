//! Commands of the SD protocol, and their frames on the bus.

use crate::sdspi::crc::{crc7, crc7_byte};
use vstd::prelude::*;

verus! {

/// A command from the host to the card: its index and its argument.
#[derive(Clone, Copy, Debug, PartialEq, Eq)]
pub struct Command {
    /// The index of the command, from 0 to 63.
    pub cmd: u8,
    /// The argument of 32 bits.
    pub arg: u32,
}

/// CMD0: put the card in idle mode.
///
/// Wraps `sdio_host::common_cmd::idle`, which builds command 0 with argument 0.
#[verifier::external_body]
pub(crate) fn idle() -> (c: Command)
    ensures
        c == (Command { cmd: 0, arg: 0 }),
{
    let c = sdio_host::common_cmd::idle();
    Command { cmd: c.cmd, arg: c.arg }
}

/// A command by its index and argument.
///
/// Wraps `sdio_host::common_cmd::cmd`, which stores both as they are given.
#[verifier::external_body]
pub(crate) fn cmd(index: u8, arg: u32) -> (c: Command)
    ensures
        c == (Command { cmd: index, arg }),
{
    let c = sdio_host::common_cmd::cmd::<sdio_host::common_cmd::R1>(index, arg);
    Command { cmd: c.cmd, arg: c.arg }
}

/// CMD8: send the interface condition.
///
/// Wraps `sdio_host::sd_cmd::send_if_cond`, which builds command 8 with the lower four bits
/// of `voltage` in bits 8 to 11 of the argument and `checkpattern` in bits 0 to 7.
#[verifier::external_body]
pub(crate) fn send_if_cond(voltage: u8, checkpattern: u8) -> (c: Command)
    ensures
        c == (Command { cmd: 8, arg: ((voltage & 0xF) as u32) << 8 | checkpattern as u32 }),
{
    let c = sdio_host::sd_cmd::send_if_cond(voltage, checkpattern);
    Command { cmd: c.cmd, arg: c.arg }
}

/// ACMD41: send the operating condition.
///
/// Wraps `sdio_host::sd_cmd::sd_send_op_cond`, which builds command 41 with the first flag
/// in bit 30 of the argument, the second in bit 28, the third in bit 24, and the lower nine
/// bits of `voltage_window` in bits 15 to 23.
#[verifier::external_body]
pub(crate) fn sd_send_op_cond(
    host_high_capacity_support: bool,
    sdxc_power_control: bool,
    switch_to_1_8v_request: bool,
    voltage_window: u16,
) -> (c: Command)
    ensures
        c == (Command {
            cmd: 41,
            arg: (if host_high_capacity_support {
                1u32
            } else {
                0u32
            }) << 30 | (if sdxc_power_control {
                1u32
            } else {
                0u32
            }) << 28 | (if switch_to_1_8v_request {
                1u32
            } else {
                0u32
            }) << 24 | ((voltage_window & 0x1FF) as u32) << 15,
        }),
{
    let c = sdio_host::sd_cmd::sd_send_op_cond(
        host_high_capacity_support,
        sdxc_power_control,
        switch_to_1_8v_request,
        voltage_window,
    );
    Command { cmd: c.cmd, arg: c.arg }
}

/// CMD9: send the card specific data.
///
/// Wraps `sdio_host::common_cmd::send_csd`, which builds command 9 with `rca` in the upper
/// half of the argument.
#[verifier::external_body]
pub(crate) fn send_csd(rca: u16) -> (c: Command)
    ensures
        c == (Command { cmd: 9, arg: (rca as u32) << 16 }),
{
    let c = sdio_host::common_cmd::send_csd(rca);
    Command { cmd: c.cmd, arg: c.arg }
}

/// CMD10: send the card identification.
///
/// Wraps `sdio_host::common_cmd::send_cid`, which builds command 10 with `rca` in the upper
/// half of the argument.
#[verifier::external_body]
pub(crate) fn send_cid(rca: u16) -> (c: Command)
    ensures
        c == (Command { cmd: 10, arg: (rca as u32) << 16 }),
{
    let c = sdio_host::common_cmd::send_cid(rca);
    Command { cmd: c.cmd, arg: c.arg }
}

/// CMD12: stop the transmission.
///
/// Wraps `sdio_host::common_cmd::stop_transmission`, which builds command 12 with
/// argument 0.
#[verifier::external_body]
pub(crate) fn stop_transmission() -> (c: Command)
    ensures
        c == (Command { cmd: 12, arg: 0 }),
{
    let c = sdio_host::common_cmd::stop_transmission();
    Command { cmd: c.cmd, arg: c.arg }
}

/// CMD17: read a single block.
///
/// Wraps `sdio_host::common_cmd::read_single_block`, which builds command 17 with `addr` as
/// the argument.
#[verifier::external_body]
pub(crate) fn read_single_block(addr: u32) -> (c: Command)
    ensures
        c == (Command { cmd: 17, arg: addr }),
{
    let c = sdio_host::common_cmd::read_single_block(addr);
    Command { cmd: c.cmd, arg: c.arg }
}

/// CMD18: read blocks until stopped.
///
/// Wraps `sdio_host::common_cmd::read_multiple_blocks`, which builds command 18 with `addr`
/// as the argument.
#[verifier::external_body]
pub(crate) fn read_multiple_blocks(addr: u32) -> (c: Command)
    ensures
        c == (Command { cmd: 18, arg: addr }),
{
    let c = sdio_host::common_cmd::read_multiple_blocks(addr);
    Command { cmd: c.cmd, arg: c.arg }
}

/// CMD24: write a single block.
///
/// Wraps `sdio_host::common_cmd::write_single_block`, which builds command 24 with `addr`
/// as the argument.
#[verifier::external_body]
pub(crate) fn write_single_block(addr: u32) -> (c: Command)
    ensures
        c == (Command { cmd: 24, arg: addr }),
{
    let c = sdio_host::common_cmd::write_single_block(addr);
    Command { cmd: c.cmd, arg: c.arg }
}

/// CMD25: write blocks until stopped.
///
/// Wraps `sdio_host::common_cmd::write_multiple_blocks`, which builds command 25 with
/// `addr` as the argument.
#[verifier::external_body]
pub(crate) fn write_multiple_blocks(addr: u32) -> (c: Command)
    ensures
        c == (Command { cmd: 25, arg: addr }),
{
    let c = sdio_host::common_cmd::write_multiple_blocks(addr);
    Command { cmd: c.cmd, arg: c.arg }
}

/// CMD13, which on an SPI bus asks for the status of the card.
///
/// Wraps `sdio_host::sd_cmd::sd_status`, which builds command 13 with argument 0.
#[verifier::external_body]
pub(crate) fn sd_status() -> (c: Command)
    ensures
        c == (Command { cmd: 13, arg: 0 }),
{
    let c = sdio_host::sd_cmd::sd_status();
    Command { cmd: c.cmd, arg: c.arg }
}

/// CMD55: the next command is an application command.
///
/// Wraps `sdio_host::common_cmd::app_cmd`, which builds command 55 with `rca` in the upper
/// half of the argument.
#[verifier::external_body]
pub(crate) fn app_cmd(rca: u16) -> (c: Command)
    ensures
        c == (Command { cmd: 55, arg: (rca as u32) << 16 }),
{
    let c = sdio_host::common_cmd::app_cmd(rca);
    Command { cmd: c.cmd, arg: c.arg }
}

/// The six bytes of a command on the bus: the start bits with the six bits of the command's
/// index, the argument with its most significant byte first, and the CRC byte of those five.
pub open spec fn frame_of(c: Command) -> Seq<u8> {
    let head = seq![
        0x40u8 | (c.cmd & 0x3F),
        (c.arg >> 24) as u8,
        (c.arg >> 16) as u8,
        (c.arg >> 8) as u8,
        c.arg as u8,
    ];
    head.push(crc7_byte(head))
}

/// The frame that sends `c` to the card.
pub fn frame(c: Command) -> (buf: [u8; 6])
    ensures
        buf@ == frame_of(c),
{
    let mut buf: [u8; 6] = [
        0x40 | (c.cmd & 0x3F),
        (c.arg >> 24) as u8,
        (c.arg >> 16) as u8,
        (c.arg >> 8) as u8,
        c.arg as u8,
        0,
    ];
    let head = vstd::slice::slice_subrange(buf.as_slice(), 0, 5);
    let crc = (crc7(head) << 1) | 1;
    proof {
        assert(head@ =~= seq![
            0x40u8 | (c.cmd & 0x3F),
            (c.arg >> 24) as u8,
            (c.arg >> 16) as u8,
            (c.arg >> 8) as u8,
            c.arg as u8,
        ]);
    }
    buf[5] = crc;
    proof {
        assert(buf@ =~= frame_of(c));
    }
    buf
}

} // verus!
