//! What holds of the driver over the steps of an operation.

use crate::sdspi::driver::{Pause, Phase, Register, Section, Stage, State};
use crate::sdspi::protocol::{Action, Event};
use crate::sdspi::{DATA_START_BLOCK, STOP_TRAN_TOKEN, WRITE_MULTIPLE_TOKEN};
use vstd::prelude::*;

verus! {

/// What holds of the state between the steps of an operation: a block that is under way
/// is one of the blocks of the operation, and the stage is one of the commands for the
/// number of blocks, which differ between one block and another number.
pub open spec fn inv(s: State) -> bool {
    match s.stage {
        Stage::Incoming(index, _) => index < s.blocks,
        Stage::Outgoing(index, _) => index < s.blocks,
        Stage::Exchange(Phase::ReadStop, _) => s.blocks != 1,
        Stage::Exchange(Phase::Write, _) => s.blocks == 1,
        Stage::Exchange(Phase::WriteStatus, _) => s.blocks == 1,
        Stage::StatusTail => s.blocks == 1,
        Stage::Busy(Pause::Written, _) => s.blocks == 1,
        Stage::Exchange(Phase::EraseApp, _) => s.blocks != 1,
        Stage::Exchange(Phase::Erase, _) => s.blocks != 1,
        Stage::Exchange(Phase::WriteMulti, _) => s.blocks != 1,
        Stage::Busy(Pause::Block(index), _) => index < s.blocks && s.blocks != 1,
        Stage::Busy(_, _) => s.blocks != 1,
        Stage::Stopping => s.blocks != 1,
        _ => true,
    }
}

/// The place of a stage in the initialization, from 0 for CMD0 to 6 for CMD10; and -1 for
/// the stages of other operations.
pub open spec fn init_rank(stage: Stage) -> int {
    match stage {
        Stage::Opening(Section::GoIdle) => 0,
        Stage::Exchange(Phase::GoIdle, _) => 0,
        Stage::Closing(Section::GoIdle) => 0,
        Stage::Exchange(Phase::CrcOn, _) => 1,
        Stage::Opening(Section::IfCond) => 2,
        Stage::Exchange(Phase::IfCond, _) => 2,
        Stage::Echo => 2,
        Stage::Closing(Section::IfCond) => 2,
        Stage::Opening(Section::OpCond) => 3,
        Stage::Exchange(Phase::OpCondApp, _) => 3,
        Stage::Exchange(Phase::OpCond, _) => 3,
        Stage::Closing(Section::OpCond) => 3,
        Stage::Opening(Section::Ocr) => 4,
        Stage::Exchange(Phase::Ocr, _) => 4,
        Stage::OcrValue => 4,
        Stage::Closing(Section::Ocr) => 4,
        Stage::Exchange(Phase::Csd, _) => 5,
        Stage::Register(Register::Csd, _) => 5,
        Stage::Exchange(Phase::Cid, _) => 6,
        Stage::Register(Register::Cid, _) => 6,
        _ => -1,
    }
}

/// Whether the command with the index `cmd` belongs to the place `rank` of the
/// initialization: CMD0, CMD59, CMD8, ACMD41 behind CMD55, CMD58, CMD9 and CMD10.
pub open spec fn init_command(rank: int, cmd: u8) -> bool {
    if rank == 0 {
        cmd == 0
    } else if rank == 1 {
        cmd == 59
    } else if rank == 2 {
        cmd == 8
    } else if rank == 3 {
        cmd == 55 || cmd == 41
    } else if rank == 4 {
        cmd == 58
    } else if rank == 5 {
        cmd == 9
    } else {
        rank == 6 && cmd == 10
    }
}

/// Whether the stage is one of a read.
pub open spec fn reading(stage: Stage) -> bool {
    match stage {
        Stage::Exchange(Phase::Read, _) => true,
        Stage::Incoming(_, _) => true,
        Stage::Exchange(Phase::ReadStop, _) => true,
        _ => false,
    }
}

/// Whether the stage is one of a write.
pub open spec fn writing(stage: Stage) -> bool {
    match stage {
        Stage::Exchange(Phase::Write, _) => true,
        Stage::Exchange(Phase::WriteStatus, _) => true,
        Stage::Exchange(Phase::EraseApp, _) => true,
        Stage::Exchange(Phase::Erase, _) => true,
        Stage::Exchange(Phase::WriteMulti, _) => true,
        Stage::StatusTail => true,
        Stage::Outgoing(_, _) => true,
        Stage::Busy(_, _) => true,
        Stage::Stopping => true,
        _ => false,
    }
}

/// The operations begin in states of which [`inv`] holds: the initialization at its first
/// place, a read among the stages of a read, and a write among those of a write, unless the
/// driver has no card, in which case they are over at once.
pub proof fn lemma_operations_begin(s: State, block_address: u32, blocks: usize)
    ensures
        inv(s.spec_init().0),
        init_rank(s.spec_init().0.stage) == 0,
        s.spec_init().0.card == s.card,
        inv(s.spec_read(block_address, blocks).0),
        inv(s.spec_write(block_address, blocks).0),
        s.card is Some ==> reading(s.spec_read(block_address, blocks).0.stage) && writing(
            s.spec_write(block_address, blocks).0.stage,
        ),
        s.card is Some ==> s.spec_read(block_address, blocks).0.blocks == blocks && s.spec_write(
            block_address,
            blocks,
        ).0.blocks == blocks,
        s.card is None ==> s.spec_read(block_address, blocks) == s.spec_fail(
            crate::sdspi::Error::NotInitialized,
        ) && s.spec_write(block_address, blocks) == s.spec_fail(
            crate::sdspi::Error::NotInitialized,
        ),
{
}

/// Every step keeps [`inv`], the number of blocks and their address. The operation is over
/// exactly when the action is `Done`; a block that the driver asks to send or to receive
/// is one of the blocks of the operation, and one that the caller holds; and the driver
/// asks for sixteen bytes at most at a time, and for a byte at least.
pub proof fn lemma_step<const SIZE: usize>(s: State, event: Event, data: Seq<[u8; SIZE]>)
    requires
        inv(s),
    ensures
        ({
            let (next, action) = s.spec_advance(event, data);
            &&& inv(next)
            &&& next.blocks == s.blocks
            &&& next.address == s.address
            &&& action is Done <==> next.stage == Stage::Ready
            &&& action matches Action::ReceiveBlock(index) ==> index < s.blocks && index
                < data.len()
            &&& action matches Action::SendBlock(index) ==> index < s.blocks && index < data.len()
            &&& action matches Action::Receive(len) ==> 1 <= len <= 16
        }),
{
}

/// The initialization goes through its places in order: a step stays at its place or
/// moves to the next, and a command that it sends is one of the place it has come to. It
/// succeeds only at the last place, with the card that it has found; until then the
/// driver keeps the card it had.
pub proof fn lemma_init_in_order<const SIZE: usize>(s: State, event: Event, data: Seq<[u8; SIZE]>)
    requires
        init_rank(s.stage) >= 0,
    ensures
        ({
            let (next, action) = s.spec_advance(event, data);
            let rank = init_rank(s.stage);
            &&& !(action is Done) ==> rank <= init_rank(next.stage) <= rank + 1
            &&& action matches Action::Command(c) ==> init_command(init_rank(next.stage), c.cmd)
            &&& action == Action::Done(Ok(())) ==> rank == 6 && next.card == Some(next.found)
            &&& action != Action::Done(Ok(())) ==> next.card == s.card
            &&& !(action is Token) && !(action is Checksum) && !(action is SendBlock) && !(action
                is ReceiveBlock)
        }),
{
}

/// A read stays a read until it is over. Its commands are CMD17 for one block, and CMD18
/// and CMD12 for another number of blocks; it sends nothing else, and it does not change
/// the card that the driver has.
pub proof fn lemma_read_commands<const SIZE: usize>(s: State, event: Event, data: Seq<[u8; SIZE]>)
    requires
        inv(s),
        reading(s.stage),
    ensures
        ({
            let (next, action) = s.spec_advance(event, data);
            &&& !(action is Done) ==> reading(next.stage)
            &&& action matches Action::Command(c) ==> c.arg == (if c.cmd == 12 {
                0
            } else {
                s.address
            }) && if s.blocks == 1 {
                c.cmd == 17
            } else {
                c.cmd == 18 || c.cmd == 12
            }
            &&& !(action is Token) && !(action is Checksum) && !(action is SendBlock)
            &&& next.card == s.card
        }),
{
}

/// A write stays a write until it is over. Its commands are CMD24 and CMD13 for one block,
/// and CMD55, ACMD23 with the number of blocks and CMD25 for another number. One block
/// goes behind the start token, several go behind the token of their own each, and the
/// stop token ends them. A write receives no block, and it does not change the card that
/// the driver has.
pub proof fn lemma_write_commands<const SIZE: usize>(s: State, event: Event, data: Seq<[u8; SIZE]>)
    requires
        inv(s),
        writing(s.stage),
    ensures
        ({
            let (next, action) = s.spec_advance(event, data);
            &&& !(action is Done) ==> writing(next.stage)
            &&& action matches Action::Command(c) ==> if s.blocks == 1 {
                (c.cmd == 24 && c.arg == s.address) || (c.cmd == 13 && c.arg == 0)
            } else {
                c.cmd == 55 || (c.cmd == 23 && c.arg == s.blocks as u32) || (c.cmd == 25 && c.arg
                    == s.address)
            }
            &&& action matches Action::Token(token) ==> token == (if s.blocks == 1 {
                DATA_START_BLOCK
            } else {
                WRITE_MULTIPLE_TOKEN
            }) || (token == STOP_TRAN_TOKEN && s.blocks != 1)
            &&& !(action is ReceiveBlock)
            &&& next.card == s.card
        }),
{
}

} // verus!
