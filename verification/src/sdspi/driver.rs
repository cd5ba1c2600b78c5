//! The driver: the operations on a card, step by step.

use crate::sdspi::command::{
    app_cmd, cmd, idle, read_multiple_blocks, read_single_block, sd_send_op_cond, send_cid,
    send_csd, send_if_cond, sd_status, stop_transmission, write_multiple_blocks,
    write_single_block, Command,
};
use crate::sdspi::protocol::{
    cmd_begin, cmd_step, data_in_begin, data_in_step, data_out_begin, data_out_step, poll_begin,
    poll_step, spec_cmd_begin, spec_cmd_step, spec_data_in_begin, spec_data_in_step,
    spec_data_out_begin, spec_data_out_step, spec_poll_begin, spec_poll_step, spec_unexpected,
    unexpected, Action, CmdStep, DataIn, DataOut, Event, Flow, PollStep, Target, Timer, Wait,
};
use crate::sdspi::registers::{
    be_value, from_be_bytes, high_capacity, is_busy, lemma_be_value_bound, ocr_block_addressed,
    ocr_busy, radix,
};
use crate::sdspi::{
    Card, CardCapacity, Error, DATA_START_BLOCK, R1_IDLE_STATE, R1_ILLEGAL_COMMAND,
    R1_READY_STATE, STOP_TRAN_TOKEN, WRITE_MULTIPLE_TOKEN,
};
use vstd::prelude::*;

verus! {

/// The parts of the initialization in which commands are repeated until the card gives the
/// answer that is waited for, for a second at most.
#[derive(Clone, Copy, Debug, PartialEq, Eq)]
pub enum Section {
    /// CMD0 until the card is idle.
    GoIdle,
    /// CMD8 until the card echoes the check pattern.
    IfCond,
    /// ACMD41 until the card is ready.
    OpCond,
    /// CMD58 until the card has powered up.
    Ocr,
}

/// The commands of the operations, by their place in them.
#[derive(Clone, Copy, Debug, PartialEq, Eq)]
pub enum Phase {
    /// CMD0, in the initialization.
    GoIdle,
    /// CMD59 with argument 1: the card is to check the CRC of commands.
    CrcOn,
    /// CMD8 for 2.7 to 3.6 V with the check pattern `0xAA`.
    IfCond,
    /// CMD55 before ACMD41.
    OpCondApp,
    /// ACMD41: the host supports cards of high capacity.
    OpCond,
    /// CMD58: the operation conditions register.
    Ocr,
    /// CMD9: the card specific data.
    Csd,
    /// CMD10: the card identification.
    Cid,
    /// CMD17 for one block, CMD18 for another number of blocks.
    Read,
    /// CMD12 after the blocks of CMD18.
    ReadStop,
    /// CMD24, for one block.
    Write,
    /// CMD13 after the block of CMD24.
    WriteStatus,
    /// CMD55 before ACMD23.
    EraseApp,
    /// ACMD23: the number of blocks that will be written, for the card to erase them first.
    Erase,
    /// CMD25, for another number of blocks than one.
    WriteMulti,
}

/// The two registers that the initialization reads as data blocks.
#[derive(Clone, Copy, Debug, PartialEq, Eq)]
pub enum Register {
    /// The card specific data.
    Csd,
    /// The card identification.
    Cid,
}

/// The places of a write at which the card is waited for.
#[derive(Clone, Copy, Debug, PartialEq, Eq)]
pub enum Pause {
    /// Behind the single block.
    Written,
    /// Behind ACMD23.
    Erased,
    /// Before the block with this index.
    Block(usize),
    /// Before the stop token.
    Stop,
    /// Behind the stop token.
    Stopped,
}

/// Where an operation stands.
#[derive(Clone, Copy, Debug, PartialEq, Eq)]
pub enum Stage {
    /// No operation is under way.
    Ready,
    /// The timer of the section is being started.
    Opening(Section),
    /// The command of the phase is being exchanged.
    Exchange(Phase, CmdStep),
    /// The four bytes behind the response to CMD8 are being read.
    Echo,
    /// The four bytes behind the response to CMD58 are being read.
    OcrValue,
    /// The byte behind the response to CMD13 is being read.
    StatusTail,
    /// The timer of the section is being stopped.
    Closing(Section),
    /// The register is being received.
    Register(Register, DataIn),
    /// The block with this index is being received.
    Incoming(usize, DataIn),
    /// The block with this index is being sent.
    Outgoing(usize, DataOut),
    /// The card is being waited for.
    Busy(Pause, PollStep),
    /// The stop token is being sent.
    Stopping,
}

/// What the driver knows.
#[derive(Clone, Copy, Debug)]
pub struct State {
    /// The card, once an initialization has succeeded.
    pub card: Option<Card>,
    /// Where the operation stands.
    pub stage: Stage,
    /// What the initialization under way has learned of the card.
    pub found: Card,
    /// The argument of the command that reads or writes: where the data begins.
    pub address: u32,
    /// The number of blocks to read or write.
    pub blocks: usize,
}

/// The time that a section of the initialization is given, in milliseconds.
pub const SECTION_TIMEOUT: u32 = 1000;

/// The argument that addresses the block `block_address` on a card of the capacity class
/// `card_type`: the block's number on a card of high capacity, and the number of its first
/// byte on others.
pub open spec fn data_address(card_type: CardCapacity, block_address: u32) -> int {
    match card_type {
        CardCapacity::HighCapacity => block_address as int,
        CardCapacity::StandardCapacity => block_address * 512,
    }
}

impl State {
    /// The relative address of the card: 0 on an SPI bus.
    pub open spec fn spec_rca(self) -> u16 {
        match self.card {
            Some(card) => card.rca as u16,
            None => 0,
        }
    }

    fn rca(self) -> (rca: u16)
        ensures
            rca == self.spec_rca(),
    {
        match self.card {
            Some(card) => card.rca as u16,
            None => 0,
        }
    }

    /// The command of a phase.
    pub open spec fn spec_command(self, phase: Phase) -> Command {
        match phase {
            Phase::GoIdle => Command { cmd: 0, arg: 0 },
            Phase::CrcOn => Command { cmd: 0x3B, arg: 1 },
            Phase::IfCond => Command { cmd: 8, arg: 0x1AA },
            Phase::OpCondApp => Command { cmd: 55, arg: (self.spec_rca() as u32) << 16 },
            Phase::OpCond => Command { cmd: 41, arg: 0x4110_0000 },
            Phase::Ocr => Command { cmd: 0x3A, arg: 0 },
            Phase::Csd => Command { cmd: 9, arg: ((self.found.rca as u16) as u32) << 16 },
            Phase::Cid => Command { cmd: 10, arg: ((self.found.rca as u16) as u32) << 16 },
            Phase::Read => Command {
                cmd: if self.blocks == 1 {
                    17
                } else {
                    18
                },
                arg: self.address,
            },
            Phase::ReadStop => Command { cmd: 12, arg: 0 },
            Phase::Write => Command { cmd: 24, arg: self.address },
            Phase::WriteStatus => Command { cmd: 13, arg: 0 },
            Phase::EraseApp => Command { cmd: 55, arg: (self.spec_rca() as u32) << 16 },
            Phase::Erase => Command { cmd: 0x17, arg: self.blocks as u32 },
            Phase::WriteMulti => Command { cmd: 25, arg: self.address },
        }
    }

    /// The command of a phase.
    pub fn command(self, phase: Phase) -> (c: Command)
        ensures
            c == self.spec_command(phase),
    {
        match phase {
            Phase::GoIdle => idle(),
            // on an SPI bus a card starts with the CRC check off
            Phase::CrcOn => cmd(0x3B, 1),
            Phase::IfCond => {
                assert(((0x1u8 & 0xF) as u32) << 8 | 0xAAu8 as u32 == 0x1AA) by (bit_vector);
                send_if_cond(0x1, 0xAA)
            },
            Phase::OpCondApp => app_cmd(self.rca()),
            Phase::OpCond => {
                assert(1u32 << 30 | 0u32 << 28 | 1u32 << 24 | ((0x20u16 & 0x1FF) as u32) << 15
                    == 0x4110_0000) by (bit_vector);
                sd_send_op_cond(true, false, true, 0x20)
            },
            Phase::Ocr => cmd(0x3A, 0),
            Phase::Csd => send_csd(self.found.rca as u16),
            Phase::Cid => send_cid(self.found.rca as u16),
            Phase::Read => if self.blocks == 1 {
                read_single_block(self.address)
            } else {
                read_multiple_blocks(self.address)
            },
            Phase::ReadStop => stop_transmission(),
            Phase::Write => write_single_block(self.address),
            Phase::WriteStatus => sd_status(),
            Phase::EraseApp => app_cmd(self.rca()),
            Phase::Erase => cmd(0x17, self.blocks as u32),
            Phase::WriteMulti => write_multiple_blocks(self.address),
        }
    }

    /// The state in another stage.
    pub open spec fn at(self, stage: Stage) -> State {
        State { stage, ..self }
    }

    /// The end of the operation with an error.
    pub open spec fn spec_fail(self, e: Error) -> (State, Action) {
        (self.at(Stage::Ready), Action::Done(Err(e)))
    }

    fn fail(self, e: Error) -> (r: (State, Action))
        ensures
            r == self.spec_fail(e),
    {
        (State { stage: Stage::Ready, ..self }, Action::Done(Err(e)))
    }

    /// The end of the operation without one.
    pub open spec fn spec_finish(self) -> (State, Action) {
        (self.at(Stage::Ready), Action::Done(Ok(())))
    }

    fn finish(self) -> (r: (State, Action))
        ensures
            r == self.spec_finish(),
    {
        (State { stage: Stage::Ready, ..self }, Action::Done(Ok(())))
    }

    /// The start of the phase: of the exchange of its command.
    pub open spec fn spec_begin(self, phase: Phase) -> (State, Action) {
        let (step, action) = spec_cmd_begin(self.spec_command(phase));
        (self.at(Stage::Exchange(phase, step)), action)
    }

    fn begin(self, phase: Phase) -> (r: (State, Action))
        ensures
            r == self.spec_begin(phase),
    {
        let (step, action) = cmd_begin(self.command(phase));
        (State { stage: Stage::Exchange(phase, step), ..self }, action)
    }

    /// The start of the section: of its timer.
    pub open spec fn spec_start_section(self, section: Section) -> (State, Action) {
        (self.at(Stage::Opening(section)), Action::StartTimer(Timer::Section, SECTION_TIMEOUT))
    }

    fn start_section(self, section: Section) -> (r: (State, Action))
        ensures
            r == self.spec_start_section(section),
    {
        (
            State { stage: Stage::Opening(section), ..self },
            Action::StartTimer(Timer::Section, SECTION_TIMEOUT),
        )
    }

    /// The end of the section: of its timer.
    pub open spec fn spec_end_section(self, section: Section) -> (State, Action) {
        (self.at(Stage::Closing(section)), Action::StopTimer(Timer::Section))
    }

    fn end_section(self, section: Section) -> (r: (State, Action))
        ensures
            r == self.spec_end_section(section),
    {
        (State { stage: Stage::Closing(section), ..self }, Action::StopTimer(Timer::Section))
    }

    /// The start of a wait for the card.
    pub open spec fn spec_pause(self, pause: Pause) -> (State, Action) {
        let (step, action) = spec_poll_begin(Wait::Idle);
        (self.at(Stage::Busy(pause, step)), action)
    }

    fn pause(self, pause: Pause) -> (r: (State, Action))
        ensures
            r == self.spec_pause(pause),
    {
        let (step, action) = poll_begin(Wait::Idle);
        (State { stage: Stage::Busy(pause, step), ..self }, action)
    }

    /// The start of the receipt of the block with this index.
    pub open spec fn spec_receive(self, index: usize) -> (State, Action) {
        let (step, action) = spec_data_in_begin();
        (self.at(Stage::Incoming(index, step)), action)
    }

    fn receive(self, index: usize) -> (r: (State, Action))
        ensures
            r == self.spec_receive(index),
    {
        let (step, action) = data_in_begin();
        (State { stage: Stage::Incoming(index, step), ..self }, action)
    }

    /// The start of the receipt of a register.
    pub open spec fn spec_receive_register(self, register: Register) -> (State, Action) {
        let (step, action) = spec_data_in_begin();
        (self.at(Stage::Register(register, step)), action)
    }

    fn receive_register(self, register: Register) -> (r: (State, Action))
        ensures
            r == self.spec_receive_register(register),
    {
        let (step, action) = data_in_begin();
        (State { stage: Stage::Register(register, step), ..self }, action)
    }

    /// The start of the sending of the block with this index, behind this token.
    pub open spec fn spec_send(self, index: usize, token: u8) -> (State, Action) {
        let (step, action) = spec_data_out_begin(token);
        (self.at(Stage::Outgoing(index, step)), action)
    }

    fn send(self, index: usize, token: u8) -> (r: (State, Action))
        ensures
            r == self.spec_send(index, token),
    {
        let (step, action) = data_out_begin(token);
        (State { stage: Stage::Outgoing(index, step), ..self }, action)
    }

    /// What follows the response `r1` to the command of the phase.
    pub open spec fn spec_responded(self, phase: Phase, r1: u8) -> (State, Action) {
        match phase {
            Phase::GoIdle => if r1 == R1_IDLE_STATE {
                self.spec_end_section(Section::GoIdle)
            } else {
                self.spec_begin(Phase::GoIdle)
            },
            Phase::CrcOn => if r1 != R1_IDLE_STATE {
                self.spec_fail(Error::Cmd59Error)
            } else {
                self.spec_start_section(Section::IfCond)
            },
            Phase::IfCond => if r1 == (R1_ILLEGAL_COMMAND | R1_IDLE_STATE) {
                self.spec_fail(Error::UnsupportedCard)
            } else {
                (self.at(Stage::Echo), Action::Receive(4))
            },
            Phase::OpCondApp => self.spec_begin(Phase::OpCond),
            Phase::OpCond => if r1 == R1_READY_STATE {
                self.spec_end_section(Section::OpCond)
            } else {
                self.spec_begin(Phase::OpCondApp)
            },
            Phase::Ocr => if r1 != R1_READY_STATE {
                self.spec_fail(Error::Cmd58Error)
            } else {
                (self.at(Stage::OcrValue), Action::Receive(4))
            },
            Phase::Csd => if r1 != R1_READY_STATE {
                self.spec_fail(Error::RegisterError(r1))
            } else {
                self.spec_receive_register(Register::Csd)
            },
            Phase::Cid => if r1 != R1_READY_STATE {
                self.spec_fail(Error::RegisterError(r1))
            } else {
                self.spec_receive_register(Register::Cid)
            },
            Phase::Read => if self.blocks == 0 {
                self.spec_begin(Phase::ReadStop)
            } else {
                self.spec_receive(0)
            },
            Phase::ReadStop => self.spec_finish(),
            Phase::Write => self.spec_send(0, DATA_START_BLOCK),
            Phase::WriteStatus => if r1 != 0 {
                self.spec_fail(Error::WriteError)
            } else {
                (self.at(Stage::StatusTail), Action::Receive(1))
            },
            Phase::EraseApp => self.spec_begin(Phase::Erase),
            Phase::Erase => self.spec_pause(Pause::Erased),
            Phase::WriteMulti => if self.blocks == 0 {
                self.spec_pause(Pause::Stop)
            } else {
                self.spec_pause(Pause::Block(0))
            },
        }
    }

    fn responded(self, phase: Phase, r1: u8) -> (r: (State, Action))
        ensures
            r == self.spec_responded(phase, r1),
    {
        match phase {
            Phase::GoIdle => if r1 == R1_IDLE_STATE {
                self.end_section(Section::GoIdle)
            } else {
                self.begin(Phase::GoIdle)
            },
            Phase::CrcOn => if r1 != R1_IDLE_STATE {
                self.fail(Error::Cmd59Error)
            } else {
                self.start_section(Section::IfCond)
            },
            Phase::IfCond => if r1 == (R1_ILLEGAL_COMMAND | R1_IDLE_STATE) {
                self.fail(Error::UnsupportedCard)
            } else {
                (State { stage: Stage::Echo, ..self }, Action::Receive(4))
            },
            Phase::OpCondApp => self.begin(Phase::OpCond),
            Phase::OpCond => if r1 == R1_READY_STATE {
                self.end_section(Section::OpCond)
            } else {
                self.begin(Phase::OpCondApp)
            },
            Phase::Ocr => if r1 != R1_READY_STATE {
                self.fail(Error::Cmd58Error)
            } else {
                (State { stage: Stage::OcrValue, ..self }, Action::Receive(4))
            },
            Phase::Csd => if r1 != R1_READY_STATE {
                self.fail(Error::RegisterError(r1))
            } else {
                self.receive_register(Register::Csd)
            },
            Phase::Cid => if r1 != R1_READY_STATE {
                self.fail(Error::RegisterError(r1))
            } else {
                self.receive_register(Register::Cid)
            },
            Phase::Read => if self.blocks == 0 {
                self.begin(Phase::ReadStop)
            } else {
                self.receive(0)
            },
            Phase::ReadStop => self.finish(),
            Phase::Write => self.send(0, DATA_START_BLOCK),
            // check status, in SD SPI mode, the status is two bytes
            Phase::WriteStatus => if r1 != 0 {
                self.fail(Error::WriteError)
            } else {
                (State { stage: Stage::StatusTail, ..self }, Action::Receive(1))
            },
            // whether the card accepts ACMD23 or not, the write goes on
            Phase::EraseApp => self.begin(Phase::Erase),
            Phase::Erase => self.pause(Pause::Erased),
            Phase::WriteMulti => if self.blocks == 0 {
                self.pause(Pause::Stop)
            } else {
                self.pause(Pause::Block(0))
            },
        }
    }

    /// What follows a block that was received or sent: the next block, or the end of the
    /// blocks.
    pub open spec fn spec_has_next(self, index: usize) -> bool {
        self.blocks > 0 && index < self.blocks - 1
    }

    fn has_next(self, index: usize) -> (b: bool)
        ensures
            b == self.spec_has_next(index),
    {
        self.blocks > 0 && index < self.blocks - 1
    }

    /// What follows the wait for the card at the pause.
    pub open spec fn spec_resumed(self, pause: Pause) -> (State, Action) {
        match pause {
            Pause::Written => self.spec_begin(Phase::WriteStatus),
            Pause::Erased => self.spec_begin(Phase::WriteMulti),
            Pause::Block(index) => self.spec_send(index, WRITE_MULTIPLE_TOKEN),
            Pause::Stop => (self.at(Stage::Stopping), Action::Token(STOP_TRAN_TOKEN)),
            Pause::Stopped => self.spec_finish(),
        }
    }

    fn resumed(self, pause: Pause) -> (r: (State, Action))
        ensures
            r == self.spec_resumed(pause),
    {
        match pause {
            Pause::Written => self.begin(Phase::WriteStatus),
            Pause::Erased => self.begin(Phase::WriteMulti),
            Pause::Block(index) => self.send(index, WRITE_MULTIPLE_TOKEN),
            // stop the write
            Pause::Stop => (State { stage: Stage::Stopping, ..self }, Action::Token(STOP_TRAN_TOKEN)),
            Pause::Stopped => self.finish(),
        }
    }

    /// What the initialization has learned of the card with its operation conditions
    /// register: the register, and from it whether the card addresses blocks.
    pub open spec fn spec_with_ocr(self, ocr: u32) -> State {
        State {
            found: Card {
                ocr,
                card_type: if ocr_block_addressed(ocr) {
                    CardCapacity::HighCapacity
                } else {
                    CardCapacity::StandardCapacity
                },
                ..self.found
            },
            ..self
        }
    }

    fn with_ocr(self, ocr: u32) -> (s: State)
        ensures
            s == self.spec_with_ocr(ocr),
    {
        let card_type = if high_capacity(ocr) {
            CardCapacity::HighCapacity
        } else {
            CardCapacity::StandardCapacity
        };
        State { found: Card { ocr, card_type, ..self.found }, ..self }
    }

    /// What follows the register with the value `value`: the next register, or the end of
    /// the initialization, from which on the driver has a card.
    pub open spec fn spec_registered(self, register: Register, value: u128) -> (State, Action) {
        match register {
            Register::Csd => (State {
                found: Card { csd: value, ..self.found },
                ..self
            }).spec_begin(Phase::Cid),
            Register::Cid => (State {
                card: Some(Card { cid: value, ..self.found }),
                found: Card { cid: value, ..self.found },
                ..self
            }).spec_finish(),
        }
    }

    fn registered(self, register: Register, value: u128) -> (r: (State, Action))
        ensures
            r == self.spec_registered(register, value),
    {
        match register {
            Register::Csd => (State { found: Card { csd: value, ..self.found }, ..self }).begin(
                Phase::Cid,
            ),
            Register::Cid => {
                let found = Card { cid: value, ..self.found };
                (State { card: Some(found), found, ..self }).finish()
            },
        }
    }

    /// The step of an operation: the state and the action that follow on the event, with
    /// the blocks of the caller in `data`.
    ///
    /// An event that cannot come of the action that was asked for ends the operation with
    /// the error `SpiError`, an expired timer with `Timeout`; and so does any event while no
    /// operation is under way.
    pub open spec fn spec_advance<const SIZE: usize>(self, event: Event, data: Seq<[u8; SIZE]>) -> (
        State,
        Action,
    ) {
        match self.stage {
            Stage::Ready => self.spec_fail(spec_unexpected(event)),
            Stage::Opening(section) => match event {
                Event::Ack => self.spec_begin(
                    match section {
                        Section::GoIdle => Phase::GoIdle,
                        Section::IfCond => Phase::IfCond,
                        Section::OpCond => Phase::OpCondApp,
                        Section::Ocr => Phase::Ocr,
                    },
                ),
                _ => self.spec_fail(spec_unexpected(event)),
            },
            Stage::Exchange(phase, step) => match spec_cmd_step(
                self.spec_command(phase),
                step,
                event,
            ) {
                Flow::Next(step, action) => (self.at(Stage::Exchange(phase, step)), action),
                Flow::Return(r1) => self.spec_responded(phase, r1),
                Flow::Fail(e) => self.spec_fail(e),
            },
            Stage::Echo => match event {
                Event::Received(bytes) => if bytes@.len() != 4 {
                    self.spec_fail(Error::SpiError)
                } else if bytes@[3] == 0xAA {
                    self.spec_end_section(Section::IfCond)
                } else {
                    self.spec_begin(Phase::IfCond)
                },
                _ => self.spec_fail(spec_unexpected(event)),
            },
            Stage::OcrValue => match event {
                Event::Received(bytes) => if bytes@.len() != 4 {
                    self.spec_fail(Error::SpiError)
                } else if !ocr_busy(be_value(bytes@) as u32) {
                    self.spec_with_ocr(be_value(bytes@) as u32).spec_end_section(Section::Ocr)
                } else {
                    self.spec_begin(Phase::Ocr)
                },
                _ => self.spec_fail(spec_unexpected(event)),
            },
            Stage::StatusTail => match event {
                Event::Received(bytes) => if bytes@.len() != 1 {
                    self.spec_fail(Error::SpiError)
                } else if bytes@[0] != 0 {
                    self.spec_fail(Error::WriteError)
                } else {
                    self.spec_finish()
                },
                _ => self.spec_fail(spec_unexpected(event)),
            },
            Stage::Closing(section) => match event {
                Event::Ack => match section {
                    Section::GoIdle => self.spec_begin(Phase::CrcOn),
                    Section::IfCond => self.spec_start_section(Section::OpCond),
                    Section::OpCond => self.spec_start_section(Section::Ocr),
                    Section::Ocr => self.spec_begin(Phase::Csd),
                },
                _ => self.spec_fail(spec_unexpected(event)),
            },
            Stage::Register(register, step) => match spec_data_in_step(
                Target::Register,
                step,
                event,
                data,
            ) {
                Flow::Next(step, action) => (self.at(Stage::Register(register, step)), action),
                Flow::Return(value) => self.spec_registered(register, value),
                Flow::Fail(e) => self.spec_fail(e),
            },
            Stage::Incoming(index, step) => match spec_data_in_step(
                Target::Block(index),
                step,
                event,
                data,
            ) {
                Flow::Next(step, action) => (self.at(Stage::Incoming(index, step)), action),
                Flow::Return(_) => if self.blocks == 1 {
                    self.spec_finish()
                } else if self.spec_has_next(index) {
                    self.spec_receive((index + 1) as usize)
                } else {
                    self.spec_begin(Phase::ReadStop)
                },
                Flow::Fail(e) => self.spec_fail(e),
            },
            Stage::Outgoing(index, step) => match spec_data_out_step(index, step, event, data) {
                Flow::Next(step, action) => (self.at(Stage::Outgoing(index, step)), action),
                Flow::Return(_) => if self.blocks == 1 {
                    self.spec_pause(Pause::Written)
                } else if self.spec_has_next(index) {
                    self.spec_pause(Pause::Block((index + 1) as usize))
                } else {
                    self.spec_pause(Pause::Stop)
                },
                Flow::Fail(e) => self.spec_fail(e),
            },
            Stage::Busy(pause, step) => match spec_poll_step(Wait::Idle, step, event) {
                Flow::Next(step, action) => (self.at(Stage::Busy(pause, step)), action),
                Flow::Return(_) => self.spec_resumed(pause),
                Flow::Fail(e) => self.spec_fail(e),
            },
            Stage::Stopping => match event {
                Event::Ack => self.spec_pause(Pause::Stopped),
                _ => self.spec_fail(spec_unexpected(event)),
            },
        }
    }

    /// The step of an operation.
    pub fn advance<const SIZE: usize>(self, event: Event, data: &[[u8; SIZE]]) -> (r: (
        State,
        Action,
    ))
        ensures
            r == self.spec_advance(event, data@),
    {
        match self.stage {
            Stage::Ready => self.fail(unexpected(event)),
            Stage::Opening(section) => match event {
                Event::Ack => self.begin(
                    match section {
                        Section::GoIdle => Phase::GoIdle,
                        Section::IfCond => Phase::IfCond,
                        Section::OpCond => Phase::OpCondApp,
                        Section::Ocr => Phase::Ocr,
                    },
                ),
                _ => self.fail(unexpected(event)),
            },
            Stage::Exchange(phase, step) => match cmd_step(self.command(phase), step, event) {
                Flow::Next(step, action) => (
                    State { stage: Stage::Exchange(phase, step), ..self },
                    action,
                ),
                Flow::Return(r1) => self.responded(phase, r1),
                Flow::Fail(e) => self.fail(e),
            },
            Stage::Echo => match event {
                Event::Received(bytes) => if bytes.len() != 4 {
                    self.fail(Error::SpiError)
                } else if bytes[3] == 0xAA {
                    self.end_section(Section::IfCond)
                } else {
                    self.begin(Phase::IfCond)
                },
                _ => self.fail(unexpected(event)),
            },
            Stage::OcrValue => match event {
                Event::Received(bytes) => if bytes.len() != 4 {
                    self.fail(Error::SpiError)
                } else {
                    proof {
                        lemma_be_value_bound(bytes@);
                        reveal_with_fuel(radix, 5);
                    }
                    let ocr = from_be_bytes(bytes) as u32;
                    if !is_busy(ocr) {
                        self.with_ocr(ocr).end_section(Section::Ocr)
                    } else {
                        self.begin(Phase::Ocr)
                    }
                },
                _ => self.fail(unexpected(event)),
            },
            Stage::StatusTail => match event {
                Event::Received(bytes) => if bytes.len() != 1 {
                    self.fail(Error::SpiError)
                } else if bytes[0] != 0 {
                    self.fail(Error::WriteError)
                } else {
                    self.finish()
                },
                _ => self.fail(unexpected(event)),
            },
            Stage::Closing(section) => match event {
                Event::Ack => match section {
                    Section::GoIdle => self.begin(Phase::CrcOn),
                    Section::IfCond => self.start_section(Section::OpCond),
                    Section::OpCond => self.start_section(Section::Ocr),
                    Section::Ocr => self.begin(Phase::Csd),
                },
                _ => self.fail(unexpected(event)),
            },
            Stage::Register(register, step) => match data_in_step(
                Target::Register,
                step,
                event,
                data,
            ) {
                Flow::Next(step, action) => (
                    State { stage: Stage::Register(register, step), ..self },
                    action,
                ),
                Flow::Return(value) => self.registered(register, value),
                Flow::Fail(e) => self.fail(e),
            },
            Stage::Incoming(index, step) => match data_in_step(
                Target::Block(index),
                step,
                event,
                data,
            ) {
                Flow::Next(step, action) => (
                    State { stage: Stage::Incoming(index, step), ..self },
                    action,
                ),
                Flow::Return(_) => if self.blocks == 1 {
                    self.finish()
                } else if self.has_next(index) {
                    self.receive(index + 1)
                } else {
                    self.begin(Phase::ReadStop)
                },
                Flow::Fail(e) => self.fail(e),
            },
            Stage::Outgoing(index, step) => match data_out_step(index, step, event, data) {
                Flow::Next(step, action) => (
                    State { stage: Stage::Outgoing(index, step), ..self },
                    action,
                ),
                Flow::Return(_) => if self.blocks == 1 {
                    self.pause(Pause::Written)
                } else if self.has_next(index) {
                    self.pause(Pause::Block(index + 1))
                } else {
                    self.pause(Pause::Stop)
                },
                Flow::Fail(e) => self.fail(e),
            },
            Stage::Busy(pause, step) => match poll_step(Wait::Idle, step, event) {
                Flow::Next(step, action) => (State { stage: Stage::Busy(pause, step), ..self }, action),
                Flow::Return(_) => self.resumed(pause),
                Flow::Fail(e) => self.fail(e),
            },
            Stage::Stopping => match event {
                Event::Ack => self.pause(Pause::Stopped),
                _ => self.fail(unexpected(event)),
            },
        }
    }

    /// The state of a driver that has no card yet.
    pub open spec fn spec_new() -> State {
        State {
            card: None,
            stage: Stage::Ready,
            found: Card {
                card_type: CardCapacity::StandardCapacity,
                ocr: 0,
                rca: 0,
                cid: 0,
                csd: 0,
            },
            address: 0,
            blocks: 0,
        }
    }

    /// The state of a driver that has no card yet.
    pub fn new() -> (s: State)
        ensures
            s == State::spec_new(),
    {
        State { card: None, stage: Stage::Ready, found: Card::default(), address: 0, blocks: 0 }
    }

    /// The start of an initialization: nothing is known of the card, and the first section
    /// begins. The card that the driver had stays until the initialization has succeeded.
    pub open spec fn spec_init(self) -> (State, Action) {
        (State { found: State::spec_new().found, ..self }).spec_start_section(Section::GoIdle)
    }

    /// The start of an initialization.
    pub fn init(self) -> (r: (State, Action))
        ensures
            r == self.spec_init(),
    {
        (State { found: Card::default(), ..self }).start_section(Section::GoIdle)
    }

    /// Whether the card that the driver has, if it has one, can address the block: on a
    /// card that addresses bytes, the number of the block's first byte has to fit 32 bits.
    pub open spec fn spec_addresses(self, block_address: u32) -> bool {
        self.card matches Some(card) ==> data_address(card.card_type, block_address) <= u32::MAX
    }

    /// Whether the card that the driver has, if it has one, can address the block.
    pub fn addresses(self, block_address: u32) -> (b: bool)
        ensures
            b == self.spec_addresses(block_address),
    {
        match self.card {
            Some(card) => match card.card_type {
                CardCapacity::HighCapacity => true,
                CardCapacity::StandardCapacity => block_address <= u32::MAX / 512,
            },
            None => true,
        }
    }

    /// The state in which `blocks` blocks from `block_address` on are to be moved.
    pub open spec fn spec_aimed(self, card: Card, block_address: u32, blocks: usize) -> State {
        State { address: data_address(card.card_type, block_address) as u32, blocks, ..self }
    }

    fn aimed(self, card: Card, block_address: u32, blocks: usize) -> (s: State)
        requires
            data_address(card.card_type, block_address) <= u32::MAX,
        ensures
            s == self.spec_aimed(card, block_address, blocks),
    {
        let address = match card.card_type {
            CardCapacity::HighCapacity => block_address,
            CardCapacity::StandardCapacity => block_address * 512,
        };
        State { address, blocks, ..self }
    }

    /// The start of a read of `blocks` blocks from `block_address` on: CMD17 for one block,
    /// CMD18 for another number. Without a card the read is over at once, with the error
    /// `NotInitialized`.
    pub open spec fn spec_read(self, block_address: u32, blocks: usize) -> (State, Action) {
        match self.card {
            Some(card) => self.spec_aimed(card, block_address, blocks).spec_begin(Phase::Read),
            None => self.spec_fail(Error::NotInitialized),
        }
    }

    /// The start of a read.
    pub fn read(self, block_address: u32, blocks: usize) -> (r: (State, Action))
        requires
            self.spec_addresses(block_address),
        ensures
            r == self.spec_read(block_address, blocks),
    {
        match self.card {
            Some(card) => self.aimed(card, block_address, blocks).begin(Phase::Read),
            None => self.fail(Error::NotInitialized),
        }
    }

    /// The start of a write of `blocks` blocks from `block_address` on: CMD24 for one block;
    /// for another number CMD25, behind ACMD23 with the number. Without a card the write is
    /// over at once, with the error `NotInitialized`.
    pub open spec fn spec_write(self, block_address: u32, blocks: usize) -> (State, Action) {
        match self.card {
            Some(card) => self.spec_aimed(card, block_address, blocks).spec_begin(
                if blocks == 1 {
                    Phase::Write
                } else {
                    Phase::EraseApp
                },
            ),
            None => self.spec_fail(Error::NotInitialized),
        }
    }

    /// The start of a write.
    pub fn write(self, block_address: u32, blocks: usize) -> (r: (State, Action))
        requires
            self.spec_addresses(block_address),
        ensures
            r == self.spec_write(block_address, blocks),
    {
        match self.card {
            Some(card) => self.aimed(card, block_address, blocks).begin(
                if blocks == 1 {
                    Phase::Write
                } else {
                    // Try sending ACMD23 _before_ write.
                    // This will pre-erase blocks to improve write performance.
                    Phase::EraseApp
                },
            ),
            None => self.fail(Error::NotInitialized),
        }
    }
}

/// A driver for an SD card on an SPI bus.
///
/// The driver owns the bus and the delay, and decides what is done on them; it does not
/// call them. An operation begins with [`SdSpi::init`], [`SdSpi::read`] or
/// [`SdSpi::write`], which answer with the first [`Action`]. Whoever runs the driver
/// performs the action on the bus, hands what came of it to [`SdSpi::advance`], and goes on
/// with the action that this answers, until that is [`Action::Done`].
pub struct SdSpi<SPI, D> {
    spi: SPI,
    delay: D,
    state: State,
}

impl<SPI, D> SdSpi<SPI, D> {
    /// What the driver knows.
    pub closed spec fn view(&self) -> State {
        self.state
    }

    /// The bus of the driver.
    pub closed spec fn spec_spi(&self) -> SPI {
        self.spi
    }

    /// The delay of the driver.
    pub closed spec fn spec_delay(&self) -> D {
        self.delay
    }

    /// A driver on the bus `spi` that measures its timeouts with `delay`. It has no card
    /// before [`SdSpi::init`] has succeeded.
    pub fn new(spi: SPI, delay: D) -> (s: Self)
        ensures
            s@ == State::spec_new(),
            s.spec_spi() == spi,
            s.spec_delay() == delay,
    {
        Self { spi, delay, state: State::new() }
    }

    /// The bus, for the action that was asked for.
    pub fn spi(&mut self) -> (spi: &mut SPI)
        ensures
            *spi == old(self).spec_spi(),
            final(self).spec_spi() == *final(spi),
            final(self).spec_delay() == old(self).spec_delay(),
            final(self)@ == old(self)@,
    {
        &mut self.spi
    }

    /// The delay, for the timers that were asked for.
    pub fn delay(&mut self) -> (delay: &mut D)
        ensures
            *delay == old(self).spec_delay(),
            final(self).spec_delay() == *final(delay),
            final(self).spec_spi() == old(self).spec_spi(),
            final(self)@ == old(self)@,
    {
        &mut self.delay
    }

    /// What the driver knows.
    pub fn state(&self) -> (s: State)
        ensures
            s == self@,
    {
        self.state
    }

    /// The size of the card in bytes, once it is initialized.
    pub fn size(&self) -> (r: Result<u64, Error>)
        ensures
            r == match self@.card {
                Some(card) => Ok::<u64, Error>(
                    (crate::sdspi::registers::csd_block_count(card.csd) * 512) as u64,
                ),
                None => Err::<u64, Error>(Error::NotInitialized),
            },
    {
        match self.state.card {
            Some(card) => Ok(card.size()),
            None => Err(Error::NotInitialized),
        }
    }

    /// Begins the initialization of the card. The SD standard asks that the bytes of
    /// [`crate::sdspi::sd_init`] go over the bus between powerup and this.
    pub fn init(&mut self) -> (action: Action)
        ensures
            (final(self)@, action) == old(self)@.spec_init(),
            final(self).spec_spi() == old(self).spec_spi(),
            final(self).spec_delay() == old(self).spec_delay(),
    {
        let (state, action) = self.state.init();
        self.state = state;
        action
    }

    /// Begins a read of `blocks` blocks from `block_address` on.
    pub fn read(&mut self, block_address: u32, blocks: usize) -> (action: Action)
        requires
            old(self)@.spec_addresses(block_address),
        ensures
            (final(self)@, action) == old(self)@.spec_read(block_address, blocks),
            final(self).spec_spi() == old(self).spec_spi(),
            final(self).spec_delay() == old(self).spec_delay(),
    {
        let (state, action) = self.state.read(block_address, blocks);
        self.state = state;
        action
    }

    /// Begins a write of `blocks` blocks from `block_address` on.
    pub fn write(&mut self, block_address: u32, blocks: usize) -> (action: Action)
        requires
            old(self)@.spec_addresses(block_address),
        ensures
            (final(self)@, action) == old(self)@.spec_write(block_address, blocks),
            final(self).spec_spi() == old(self).spec_spi(),
            final(self).spec_delay() == old(self).spec_delay(),
    {
        let (state, action) = self.state.write(block_address, blocks);
        self.state = state;
        action
    }

    /// Takes what came of the last action, and answers with the next one. `data` holds the
    /// blocks of the caller that the operation reads into or writes from.
    pub fn advance<const SIZE: usize>(&mut self, event: Event, data: &[[u8; SIZE]]) -> (action:
        Action)
        ensures
            (final(self)@, action) == old(self)@.spec_advance(event, data@),
            final(self).spec_spi() == old(self).spec_spi(),
            final(self).spec_delay() == old(self).spec_delay(),
    {
        let (state, action) = self.state.advance(event, data);
        self.state = state;
        action
    }
}

} // verus!
