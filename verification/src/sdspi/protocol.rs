//! The steps of the protocol that recur: polling the card, exchanging a command, and
//! moving a data block in or out.

use crate::sdspi::command::{frame, frame_of, idle, stop_transmission, Command};
use crate::sdspi::crc::{crc16, crc16_of};
use crate::sdspi::registers::{be_value, from_be_bytes};
use crate::sdspi::{Error, DATA_RES_ACCEPTED, DATA_RES_MASK, DATA_START_BLOCK};
use vstd::prelude::*;

verus! {

/// The two timers that bound an operation. When one of them expires, the operation fails.
#[derive(Clone, Copy, Debug, PartialEq, Eq)]
pub enum Timer {
    /// Bounds a part of the initialization in which commands are repeated.
    Section,
    /// Bounds one wait for a byte from the card.
    Poll,
}

/// What the driver asks of the bus.
#[derive(Clone, Copy, Debug, PartialEq, Eq)]
pub enum Action {
    /// Send the six bytes of the command's frame.
    Command(Command),
    /// Send this byte.
    Token(u8),
    /// Send the two bytes of this CRC-16, most significant byte first.
    Checksum(u16),
    /// Send the block of the caller's data with this index.
    SendBlock(usize),
    /// Send this many bytes of ones, and hand back the bytes that came in.
    Receive(usize),
    /// Send a block's length of ones, and put what came in into the block of the caller's
    /// data with this index.
    ReceiveBlock(usize),
    /// Start the timer, to expire after this many milliseconds.
    StartTimer(Timer, u32),
    /// Stop the timer.
    StopTimer(Timer),
    /// Nothing: the operation is over, with this result. Both timers are to be stopped.
    Done(Result<(), Error>),
}

impl Action {
    /// The bytes that the action sends by itself: the frame of a command, a token, or the
    /// two bytes of a CRC. The other actions send none, or bytes that the caller holds.
    pub open spec fn spec_bytes(self) -> Seq<u8> {
        match self {
            Action::Command(c) => frame_of(c),
            Action::Token(token) => seq![token],
            Action::Checksum(crc) => seq![(crc >> 8) as u8, crc as u8],
            _ => Seq::empty(),
        }
    }

    /// The bytes that the action sends by itself: they are the first `len` bytes of `buf`.
    pub fn bytes(self) -> (r: ([u8; 6], usize))
        ensures
            r.1 <= 6,
            r.0@.subrange(0, r.1 as int) == self.spec_bytes(),
    {
        match self {
            Action::Command(c) => {
                let buf = frame(c);
                assert(buf@.subrange(0, 6) =~= buf@);
                (buf, 6)
            },
            Action::Token(token) => {
                let buf = [token, 0, 0, 0, 0, 0];
                assert(buf@.subrange(0, 1) =~= seq![token]);
                (buf, 1)
            },
            Action::Checksum(crc) => {
                let buf = [(crc >> 8) as u8, crc as u8, 0, 0, 0, 0];
                assert(buf@.subrange(0, 2) =~= seq![(crc >> 8) as u8, crc as u8]);
                (buf, 2)
            },
            _ => {
                let buf = [0u8; 6];
                assert(buf@.subrange(0, 0) =~= Seq::<u8>::empty());
                (buf, 0)
            },
        }
    }
}

/// What came of an action.
#[derive(Clone, Copy, Debug)]
pub enum Event<'a> {
    /// The bytes were sent, the block was received, or the timer was started or stopped.
    Ack,
    /// The bytes that came in.
    Received(&'a [u8]),
    /// The transfer failed.
    BusError,
    /// A timer has expired.
    Timeout,
}

/// What a step of a part of the protocol leads to.
pub enum Flow<S, T> {
    /// The part goes on in this state, with this action.
    Next(S, Action),
    /// The part is over, with this result.
    Return(T),
    /// The operation fails with this error.
    Fail(Error),
}

/// The error that an event stands for where another was awaited.
pub open spec fn spec_unexpected(event: Event) -> Error {
    match event {
        Event::Timeout => Error::Timeout,
        _ => Error::SpiError,
    }
}

/// The error that an event stands for where another was awaited: a timeout when a timer
/// expired, else a failure of the bus.
pub fn unexpected(event: Event) -> (e: Error)
    ensures
        e == spec_unexpected(event),
{
    match event {
        Event::Timeout => Error::Timeout,
        _ => Error::SpiError,
    }
}

/// What the card is polled for.
#[derive(Clone, Copy, Debug, PartialEq, Eq)]
pub enum Wait {
    /// The card releases the bus: a byte of ones.
    Idle,
    /// The response to a command: a byte with the top bit clear.
    Response,
    /// The token before a data block: a byte that is not all ones.
    Token,
}

impl Wait {
    /// The time that the card is given, in milliseconds.
    pub open spec fn spec_timeout(self) -> u32 {
        match self {
            Wait::Idle => 5000,
            _ => 1000,
        }
    }

    /// The time that the card is given, in milliseconds.
    pub fn timeout(self) -> (millis: u32)
        ensures
            millis == self.spec_timeout(),
    {
        match self {
            Wait::Idle => 5000,
            _ => 1000,
        }
    }

    /// Whether `byte` ends the wait.
    pub open spec fn spec_ends(self, byte: u8) -> bool {
        match self {
            Wait::Idle => byte == 0xFF,
            Wait::Response => byte & 0x80 == 0,
            Wait::Token => byte != 0xFF,
        }
    }

    /// Whether `byte` ends the wait.
    pub fn ends(self, byte: u8) -> (b: bool)
        ensures
            b == self.spec_ends(byte),
    {
        match self {
            Wait::Idle => byte == 0xFF,
            Wait::Response => byte & 0x80 == 0,
            Wait::Token => byte != 0xFF,
        }
    }
}

/// Where a wait for a byte stands.
#[derive(Clone, Copy, Debug, PartialEq, Eq)]
pub enum PollStep {
    /// The timer is being started.
    Arming,
    /// A byte is being read.
    Reading,
    /// This byte has ended the wait, and the timer is being stopped.
    Disarming(u8),
}

/// The start of a wait: the timer is started.
pub open spec fn spec_poll_begin(wait: Wait) -> (PollStep, Action) {
    (PollStep::Arming, Action::StartTimer(Timer::Poll, wait.spec_timeout()))
}

/// The start of a wait: the timer is started.
pub fn poll_begin(wait: Wait) -> (r: (PollStep, Action))
    ensures
        r == spec_poll_begin(wait),
{
    (PollStep::Arming, Action::StartTimer(Timer::Poll, wait.timeout()))
}

/// A step of a wait: bytes are read one by one until one ends the wait, which is the
/// result.
pub open spec fn spec_poll_step(wait: Wait, step: PollStep, event: Event) -> Flow<PollStep, u8> {
    match (step, event) {
        (PollStep::Arming, Event::Ack) => Flow::Next(PollStep::Reading, Action::Receive(1)),
        (PollStep::Reading, Event::Received(bytes)) => if bytes@.len() != 1 {
            Flow::Fail(Error::SpiError)
        } else if wait.spec_ends(bytes@[0]) {
            Flow::Next(PollStep::Disarming(bytes@[0]), Action::StopTimer(Timer::Poll))
        } else {
            Flow::Next(PollStep::Reading, Action::Receive(1))
        },
        (PollStep::Disarming(byte), Event::Ack) => Flow::Return(byte),
        _ => Flow::Fail(spec_unexpected(event)),
    }
}

/// A step of a wait.
pub fn poll_step(wait: Wait, step: PollStep, event: Event) -> (r: Flow<PollStep, u8>)
    ensures
        r == spec_poll_step(wait, step, event),
{
    match (step, event) {
        (PollStep::Arming, Event::Ack) => Flow::Next(PollStep::Reading, Action::Receive(1)),
        (PollStep::Reading, Event::Received(bytes)) => if bytes.len() != 1 {
            Flow::Fail(Error::SpiError)
        } else if wait.ends(bytes[0]) {
            Flow::Next(PollStep::Disarming(bytes[0]), Action::StopTimer(Timer::Poll))
        } else {
            Flow::Next(PollStep::Reading, Action::Receive(1))
        },
        (PollStep::Disarming(byte), Event::Ack) => Flow::Return(byte),
        _ => Flow::Fail(unexpected(event)),
    }
}

/// Where the exchange of a command stands.
#[derive(Clone, Copy, Debug, PartialEq, Eq)]
pub enum CmdStep {
    /// The card is waited for: it has to release the bus before the command.
    Idle(PollStep),
    /// The frame is being sent.
    Frame,
    /// The byte behind the frame of CMD12, which is no response, is being read.
    Stuff,
    /// The response is waited for.
    Response(PollStep),
}

/// The start of the exchange of `c`: the wait for the card, or at once the frame where the
/// command is CMD0, which the card takes at any time.
pub open spec fn spec_cmd_begin(c: Command) -> (CmdStep, Action) {
    if c.cmd != 0 {
        (CmdStep::Idle(spec_poll_begin(Wait::Idle).0), spec_poll_begin(Wait::Idle).1)
    } else {
        (CmdStep::Frame, Action::Command(c))
    }
}

/// The start of the exchange of `c`.
pub fn cmd_begin(c: Command) -> (r: (CmdStep, Action))
    ensures
        r == spec_cmd_begin(c),
{
    if c.cmd != idle().cmd {
        let (poll, action) = poll_begin(Wait::Idle);
        (CmdStep::Idle(poll), action)
    } else {
        (CmdStep::Frame, Action::Command(c))
    }
}

/// The start of the wait for the response.
pub open spec fn spec_await_response() -> Flow<CmdStep, u8> {
    Flow::Next(CmdStep::Response(spec_poll_begin(Wait::Response).0), spec_poll_begin(Wait::Response).1)
}

fn await_response() -> (r: Flow<CmdStep, u8>)
    ensures
        r == spec_await_response(),
{
    let (poll, action) = poll_begin(Wait::Response);
    Flow::Next(CmdStep::Response(poll), action)
}

/// A step of the exchange of `c`: the card is waited for, the frame is sent, and the
/// response is waited for, which is the result.
pub open spec fn spec_cmd_step(c: Command, step: CmdStep, event: Event) -> Flow<CmdStep, u8> {
    match step {
        CmdStep::Idle(poll) => match spec_poll_step(Wait::Idle, poll, event) {
            Flow::Next(poll, action) => Flow::Next(CmdStep::Idle(poll), action),
            Flow::Return(_) => Flow::Next(CmdStep::Frame, Action::Command(c)),
            Flow::Fail(e) => Flow::Fail(e),
        },
        CmdStep::Frame => match event {
            Event::Ack => if c.cmd == 12 {
                Flow::Next(CmdStep::Stuff, Action::Receive(1))
            } else {
                spec_await_response()
            },
            _ => Flow::Fail(spec_unexpected(event)),
        },
        CmdStep::Stuff => match event {
            Event::Received(bytes) => if bytes@.len() == 1 {
                spec_await_response()
            } else {
                Flow::Fail(Error::SpiError)
            },
            _ => Flow::Fail(spec_unexpected(event)),
        },
        CmdStep::Response(poll) => match spec_poll_step(Wait::Response, poll, event) {
            Flow::Next(poll, action) => Flow::Next(CmdStep::Response(poll), action),
            Flow::Return(byte) => Flow::Return(byte),
            Flow::Fail(e) => Flow::Fail(e),
        },
    }
}

/// A step of the exchange of `c`.
pub fn cmd_step(c: Command, step: CmdStep, event: Event) -> (r: Flow<CmdStep, u8>)
    ensures
        r == spec_cmd_step(c, step, event),
{
    match step {
        CmdStep::Idle(poll) => match poll_step(Wait::Idle, poll, event) {
            Flow::Next(poll, action) => Flow::Next(CmdStep::Idle(poll), action),
            Flow::Return(_) => Flow::Next(CmdStep::Frame, Action::Command(c)),
            Flow::Fail(e) => Flow::Fail(e),
        },
        CmdStep::Frame => match event {
            Event::Ack => if c.cmd == stop_transmission().cmd {
                // skip stuff byte for stop read
                Flow::Next(CmdStep::Stuff, Action::Receive(1))
            } else {
                await_response()
            },
            _ => Flow::Fail(unexpected(event)),
        },
        CmdStep::Stuff => match event {
            Event::Received(bytes) => if bytes.len() == 1 {
                await_response()
            } else {
                Flow::Fail(Error::SpiError)
            },
            _ => Flow::Fail(unexpected(event)),
        },
        CmdStep::Response(poll) => match poll_step(Wait::Response, poll, event) {
            Flow::Next(poll, action) => Flow::Next(CmdStep::Response(poll), action),
            Flow::Return(byte) => Flow::Return(byte),
            Flow::Fail(e) => Flow::Fail(e),
        },
    }
}

/// Where a data block is received into: a register of the driver, or the caller's data.
#[derive(Clone, Copy, Debug, PartialEq, Eq)]
pub enum Target {
    /// A register of sixteen bytes.
    Register,
    /// The block of the caller's data with this index.
    Block(usize),
}

/// Where the receipt of a data block stands.
#[derive(Clone, Copy, Debug, PartialEq, Eq)]
pub enum DataIn {
    /// The start token is waited for.
    Token(PollStep),
    /// The block is being received.
    Payload,
    /// The CRC is being received. The block has the CRC-16 that is the first number; as a
    /// register it holds the second.
    Checksum(u16, u128),
}

/// The start of the receipt of a data block: the wait for the start token.
pub open spec fn spec_data_in_begin() -> (DataIn, Action) {
    (DataIn::Token(spec_poll_begin(Wait::Token).0), spec_poll_begin(Wait::Token).1)
}

/// The start of the receipt of a data block.
pub fn data_in_begin() -> (r: (DataIn, Action))
    ensures
        r == spec_data_in_begin(),
{
    let (poll, action) = poll_begin(Wait::Token);
    (DataIn::Token(poll), action)
}

/// A step of the receipt of a data block: the start token, the block, and its CRC-16, which
/// has to be the one that the block has. The result is the value of the register, and 0
/// for a block of the caller. A block that the caller does not hold is never asked for:
/// the receipt fails before.
pub open spec fn spec_data_in_step<const SIZE: usize>(
    target: Target,
    step: DataIn,
    event: Event,
    data: Seq<[u8; SIZE]>,
) -> Flow<DataIn, u128> {
    match step {
        DataIn::Token(poll) => match spec_poll_step(Wait::Token, poll, event) {
            Flow::Next(poll, action) => Flow::Next(DataIn::Token(poll), action),
            Flow::Return(byte) => if byte != DATA_START_BLOCK {
                Flow::Fail(Error::RegisterError(byte))
            } else {
                match target {
                    Target::Register => Flow::Next(DataIn::Payload, Action::Receive(16)),
                    Target::Block(index) => if index < data.len() {
                        Flow::Next(DataIn::Payload, Action::ReceiveBlock(index))
                    } else {
                        Flow::Fail(Error::SpiError)
                    },
                }
            },
            Flow::Fail(e) => Flow::Fail(e),
        },
        DataIn::Payload => match (target, event) {
            (Target::Register, Event::Received(bytes)) => if bytes@.len() == 16 {
                Flow::Next(
                    DataIn::Checksum(crc16_of(bytes@), be_value(bytes@) as u128),
                    Action::Receive(2),
                )
            } else {
                Flow::Fail(Error::SpiError)
            },
            (Target::Block(index), Event::Ack) => if index < data.len() {
                Flow::Next(DataIn::Checksum(crc16_of(data[index as int]@), 0), Action::Receive(2))
            } else {
                Flow::Fail(Error::SpiError)
            },
            _ => Flow::Fail(spec_unexpected(event)),
        },
        DataIn::Checksum(computed, value) => match event {
            Event::Received(bytes) => if bytes@.len() != 2 {
                Flow::Fail(Error::SpiError)
            } else if be_value(bytes@) != computed {
                Flow::Fail(Error::CrcMismatch(be_value(bytes@) as u16, computed))
            } else {
                Flow::Return(value)
            },
            _ => Flow::Fail(spec_unexpected(event)),
        },
    }
}

/// A step of the receipt of a data block.
pub fn data_in_step<const SIZE: usize>(
    target: Target,
    step: DataIn,
    event: Event,
    data: &[[u8; SIZE]],
) -> (r: Flow<DataIn, u128>)
    ensures
        r == spec_data_in_step(target, step, event, data@),
{
    match step {
        DataIn::Token(poll) => match poll_step(Wait::Token, poll, event) {
            Flow::Next(poll, action) => Flow::Next(DataIn::Token(poll), action),
            Flow::Return(byte) => if byte != DATA_START_BLOCK {
                Flow::Fail(Error::RegisterError(byte))
            } else {
                match target {
                    Target::Register => Flow::Next(DataIn::Payload, Action::Receive(16)),
                    Target::Block(index) => if index < data.len() {
                        Flow::Next(DataIn::Payload, Action::ReceiveBlock(index))
                    } else {
                        Flow::Fail(Error::SpiError)
                    },
                }
            },
            Flow::Fail(e) => Flow::Fail(e),
        },
        DataIn::Payload => match (target, event) {
            (Target::Register, Event::Received(bytes)) => if bytes.len() == 16 {
                Flow::Next(DataIn::Checksum(crc16(bytes), from_be_bytes(bytes)), Action::Receive(2))
            } else {
                Flow::Fail(Error::SpiError)
            },
            (Target::Block(index), Event::Ack) => if index < data.len() {
                Flow::Next(DataIn::Checksum(crc16(&data[index]), 0), Action::Receive(2))
            } else {
                Flow::Fail(Error::SpiError)
            },
            _ => Flow::Fail(unexpected(event)),
        },
        DataIn::Checksum(computed, value) => match event {
            Event::Received(bytes) => if bytes.len() != 2 {
                Flow::Fail(Error::SpiError)
            } else {
                let crc = from_be_bytes(bytes);
                proof {
                    crate::sdspi::registers::lemma_be_value_bound(bytes@);
                    reveal_with_fuel(crate::sdspi::registers::radix, 3);
                }
                if crc != computed as u128 {
                    Flow::Fail(Error::CrcMismatch(crc as u16, computed))
                } else {
                    Flow::Return(value)
                }
            },
            _ => Flow::Fail(unexpected(event)),
        },
    }
}

/// Where the sending of a data block stands.
#[derive(Clone, Copy, Debug, PartialEq, Eq)]
pub enum DataOut {
    /// The token before the block is being sent.
    Token,
    /// The block is being sent.
    Payload,
    /// The CRC is being sent.
    Checksum,
    /// The card's word on the block is being read.
    Status,
}

/// The start of the sending of a data block: the token.
pub open spec fn spec_data_out_begin(token: u8) -> (DataOut, Action) {
    (DataOut::Token, Action::Token(token))
}

/// The start of the sending of a data block.
pub fn data_out_begin(token: u8) -> (r: (DataOut, Action))
    ensures
        r == spec_data_out_begin(token),
{
    (DataOut::Token, Action::Token(token))
}

/// A step of the sending of the block `index` of `data`: the token, the block, its CRC-16,
/// and the card's word on it, which has to say that the block is accepted. A block that the
/// caller does not hold is never asked for: the sending fails before.
pub open spec fn spec_data_out_step<const SIZE: usize>(
    index: usize,
    step: DataOut,
    event: Event,
    data: Seq<[u8; SIZE]>,
) -> Flow<DataOut, ()> {
    match (step, event) {
        (DataOut::Token, Event::Ack) => if index < data.len() {
            Flow::Next(DataOut::Payload, Action::SendBlock(index))
        } else {
            Flow::Fail(Error::SpiError)
        },
        (DataOut::Payload, Event::Ack) => if index < data.len() {
            Flow::Next(DataOut::Checksum, Action::Checksum(crc16_of(data[index as int]@)))
        } else {
            Flow::Fail(Error::SpiError)
        },
        (DataOut::Checksum, Event::Ack) => Flow::Next(DataOut::Status, Action::Receive(1)),
        (DataOut::Status, Event::Received(bytes)) => if bytes@.len() != 1 {
            Flow::Fail(Error::SpiError)
        } else if bytes@[0] & DATA_RES_MASK != DATA_RES_ACCEPTED {
            Flow::Fail(Error::WriteError)
        } else {
            Flow::Return(())
        },
        _ => Flow::Fail(spec_unexpected(event)),
    }
}

/// A step of the sending of a data block.
pub fn data_out_step<const SIZE: usize>(
    index: usize,
    step: DataOut,
    event: Event,
    data: &[[u8; SIZE]],
) -> (r: Flow<DataOut, ()>)
    ensures
        r == spec_data_out_step(index, step, event, data@),
{
    match (step, event) {
        (DataOut::Token, Event::Ack) => if index < data.len() {
            Flow::Next(DataOut::Payload, Action::SendBlock(index))
        } else {
            Flow::Fail(Error::SpiError)
        },
        (DataOut::Payload, Event::Ack) => if index < data.len() {
            Flow::Next(DataOut::Checksum, Action::Checksum(crc16(&data[index])))
        } else {
            Flow::Fail(Error::SpiError)
        },
        (DataOut::Checksum, Event::Ack) => Flow::Next(DataOut::Status, Action::Receive(1)),
        (DataOut::Status, Event::Received(bytes)) => if bytes.len() != 1 {
            Flow::Fail(Error::SpiError)
        } else if bytes[0] & DATA_RES_MASK != DATA_RES_ACCEPTED {
            Flow::Fail(Error::WriteError)
        } else {
            Flow::Return(())
        },
        _ => Flow::Fail(unexpected(event)),
    }
}

} // verus!
