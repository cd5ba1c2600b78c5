//! A block device that keeps its bytes in memory.

use crate::block_device_driver::{
    blocks_to_slice, blocks_to_slice_mut, overwrite, BlockDevice, Transfer,
};
use vstd::prelude::*;

verus! {

/// The error of a [`RamDisk`]: the blocks asked for do not all lie on the disk.
#[derive(Copy, Clone, Debug, PartialEq, Eq)]
pub struct OutOfRange;

/// A block device over a vector of bytes. It asks no alignment of the buffers it is handed,
/// and transfers every block that lies on it: a transfer fails if and only if it reaches
/// behind the last byte, and then it moves nothing.
pub struct RamDisk<const SIZE: usize> {
    storage: Vec<u8>,
    transfers: Ghost<Seq<Transfer>>,
}

impl<const SIZE: usize> RamDisk<SIZE> {
    /// A disk that holds `storage`.
    pub fn new(storage: Vec<u8>) -> (disk: Self)
        ensures
            disk.contents() == storage@,
            disk.history() == Seq::<Transfer>::empty(),
    {
        RamDisk { storage, transfers: Ghost(Seq::empty()) }
    }

    /// The bytes of the disk.
    pub fn into_inner(self) -> (storage: Vec<u8>)
        ensures
            storage@ == self.contents(),
    {
        self.storage
    }

    /// Where the `count` blocks from `block_address` on lie in the storage, if they all do.
    fn range(&self, block_address: u32, count: usize) -> (r: Option<(usize, usize)>)
        ensures
            self.contents().len() <= usize::MAX,
            r is Some <==> (block_address + count) * SIZE <= self.contents().len(),
            r matches Some((lo, len)) ==> {
                &&& lo == block_address * SIZE
                &&& len == count * SIZE
                &&& lo + len == (block_address + count) * SIZE
                &&& lo + len <= usize::MAX
            },
    {
        proof {
            let a = block_address as int;
            let c = count as int;
            let s = SIZE as int;
            assert((a + c) * s == a * s + c * s && a * s >= 0 && c * s >= 0) by (nonlinear_arith)
                requires
                    a >= 0,
                    c >= 0,
                    s >= 0,
            ;
        }
        let total = self.storage.len();
        let lo = match (block_address as usize).checked_mul(SIZE) {
            Some(lo) => lo,
            None => {
                return None;
            },
        };
        let len = match count.checked_mul(SIZE) {
            Some(len) => len,
            None => {
                return None;
            },
        };
        match lo.checked_add(len) {
            Some(hi) => if hi <= total {
                Some((lo, len))
            } else {
                None
            },
            None => None,
        }
    }
}

impl<const SIZE: usize> BlockDevice<SIZE> for RamDisk<SIZE> {
    type Error = OutOfRange;

    open spec fn spec_align() -> usize {
        1
    }

    closed spec fn contents(&self) -> Seq<u8> {
        self.storage@
    }

    closed spec fn history(&self) -> Seq<Transfer> {
        self.transfers@
    }

    fn align() -> (a: usize) {
        1
    }

    fn read(&mut self, block_address: u32, data: &mut [[u8; SIZE]]) -> (r: Result<(), OutOfRange>)
        ensures
            r is Ok <==> (block_address + old(data)@.len()) * SIZE <= (*old(self)).contents().len(),
            r is Err ==> final(data)@ == old(data)@,
    {
        let count = data.len();
        proof {
            self.transfers@ = self.transfers@.push(
                Transfer::Read { block_address, blocks: count as nat },
            );
        }
        let (lo, len) = match self.range(block_address, count) {
            Some(range) => range,
            None => {
                return Err(OutOfRange);
            },
        };
        let bytes = blocks_to_slice_mut(data);
        let mut k: usize = 0;
        while k < len
            invariant
                k <= len,
                bytes@.len() == len,
                lo + len <= self.storage@.len(),
                lo + len <= usize::MAX,
                forall|i: int| 0 <= i < k ==> bytes@[i] == self.storage@[lo + i],
            decreases len - k,
        {
            bytes[k] = self.storage[lo + k];
            k += 1;
        }
        proof {
            assert(bytes@ =~= self.storage@.subrange(lo as int, lo + len));
        }
        Ok(())
    }

    fn write(&mut self, block_address: u32, data: &[[u8; SIZE]]) -> (r: Result<(), OutOfRange>)
        ensures
            r is Ok <==> (block_address + data@.len()) * SIZE <= (*old(self)).contents().len(),
            r is Err ==> (*final(self)).contents() == (*old(self)).contents(),
    {
        let count = data.len();
        proof {
            self.transfers@ = self.transfers@.push(
                Transfer::Write { block_address, blocks: count as nat },
            );
        }
        let (lo, len) = match self.range(block_address, count) {
            Some(range) => range,
            None => {
                return Err(OutOfRange);
            },
        };
        let bytes = blocks_to_slice(data);
        let ghost before = self.storage@;
        let ghost log = self.transfers@;
        let mut k: usize = 0;
        while k < len
            invariant
                k <= len,
                bytes@.len() == len,
                self.storage@.len() == before.len(),
                self.transfers@ == log,
                lo + len <= before.len(),
                lo + len <= usize::MAX,
                forall|i: int| 0 <= i < k ==> self.storage@[lo + i] == bytes@[i],
                forall|i: int|
                    0 <= i < before.len() && !(lo <= i < lo + k) ==> self.storage@[i] == before[i],
            decreases len - k,
        {
            self.storage[lo + k] = bytes[k];
            k += 1;
        }
        proof {
            assert(self.storage@ =~= overwrite(before, lo as int, bytes@));
        }
        Ok(())
    }

    fn size(&mut self) -> (r: Result<u64, OutOfRange>)
        ensures
            r is Ok,
    {
        Ok(self.storage.len() as u64)
    }
}

} // verus!
