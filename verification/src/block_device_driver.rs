//! Block devices: storage that is read and written in whole blocks.

use vstd::arithmetic::div_mod::lemma_fundamental_div_mod_converse;
use vstd::prelude::*;

verus! {

/// One call of a device's `read` or `write`.
pub enum Transfer {
    /// `blocks` blocks were asked from the device, starting at `block_address`.
    Read { block_address: u32, blocks: nat },
    /// `blocks` blocks were handed to the device, starting at `block_address`.
    Write { block_address: u32, blocks: nat },
}

/// The bytes of `blocks`, one block after the other.
pub open spec fn flatten<const SIZE: usize>(blocks: Seq<[u8; SIZE]>) -> Seq<u8> {
    Seq::new(blocks.len() * SIZE as nat, |i: int| blocks[i / SIZE as int]@[i % SIZE as int])
}

/// `s` with the bytes from `at` on replaced by `data`.
pub open spec fn overwrite(s: Seq<u8>, at: int, data: Seq<u8>) -> Seq<u8> {
    Seq::new(s.len(), |i: int| if at <= i < at + data.len() { data[i - at] } else { s[i] })
}

/// `a` and `b` have one length and differ at most in the positions from `lo` up to `hi`.
pub open spec fn same_outside(a: Seq<u8>, b: Seq<u8>, lo: int, hi: int) -> bool {
    &&& a.len() == b.len()
    &&& forall|i: int| 0 <= i < a.len() && !(lo <= i < hi) ==> a[i] == b[i]
}

/// A device that stores a fixed number of bytes and transfers them in blocks of `SIZE` bytes.
///
/// All addresses are zero indexed, and the unit is blocks: with blocks of 512 bytes, the
/// bytes from 1024 to 1536 are the block at address 2.
///
/// An implementation promises what the clauses say: a transfer that succeeds moves exactly
/// the addressed bytes, a read never changes what is stored, and a write that fails has
/// changed nothing outside the blocks it was asked to write. A device that transfers has
/// a size that 64 bits hold, as [`BlockDevice::size`] reports it. What is proved of the users
/// of a device holds of the devices that keep this promise.
///
/// [`BlockDevice::spec_align`], [`BlockDevice::contents`] and [`BlockDevice::history`]
/// are the model that the clauses speak of. Compiled code never calls them: an
/// implementation that is not verified gives them any body.
pub trait BlockDevice<const SIZE: usize> {
    /// The error type of the device.
    type Error;

    /// The alignment, in bytes, that the device asks of the buffers it transfers.
    spec fn spec_align() -> usize;

    /// The bytes that the device stores.
    spec fn contents(&self) -> Seq<u8>;

    /// The transfers that the device was asked for, oldest first.
    spec fn history(&self) -> Seq<Transfer>;

    /// The alignment, in bytes, that the device asks of the buffers it transfers.
    fn align() -> (a: usize)
        ensures
            a == Self::spec_align(),
            a > 0,
    ;

    /// Read one or more blocks at the given block address.
    fn read(&mut self, block_address: u32, data: &mut [[u8; SIZE]]) -> (r: Result<(), Self::Error>)
        ensures
            final(self).contents() == old(self).contents(),
            final(self).history() == old(self).history().push(
                Transfer::Read { block_address, blocks: old(data)@.len() },
            ),
            final(data)@.len() == old(data)@.len(),
            r is Ok ==> {
                &&& old(self).contents().len() <= u64::MAX
                &&& (block_address + old(data)@.len()) * SIZE <= old(self).contents().len()
                &&& flatten(final(data)@) == old(self).contents().subrange(
                    block_address * SIZE,
                    (block_address + old(data)@.len()) * SIZE,
                )
            },
    ;

    /// Write one or more blocks at the given block address.
    fn write(&mut self, block_address: u32, data: &[[u8; SIZE]]) -> (r: Result<(), Self::Error>)
        ensures
            same_outside(
                final(self).contents(),
                old(self).contents(),
                block_address * SIZE,
                (block_address + data@.len()) * SIZE,
            ),
            final(self).history() == old(self).history().push(
                Transfer::Write { block_address, blocks: data@.len() },
            ),
            r is Ok ==> {
                &&& old(self).contents().len() <= u64::MAX
                &&& (block_address + data@.len()) * SIZE <= old(self).contents().len()
                &&& final(self).contents() == overwrite(
                    old(self).contents(),
                    block_address * SIZE,
                    flatten(data@),
                )
            },
    ;

    /// Report the size of the block device in bytes.
    fn size(&mut self) -> (r: Result<u64, Self::Error>)
        ensures
            final(self).contents() == old(self).contents(),
            final(self).history() == old(self).history(),
            r matches Ok(n) ==> n == old(self).contents().len(),
    ;
}

impl<T: BlockDevice<SIZE>, const SIZE: usize> BlockDevice<SIZE> for &mut T {
    type Error = T::Error;

    open spec fn spec_align() -> usize {
        T::spec_align()
    }

    open spec fn contents(&self) -> Seq<u8> {
        (**self).contents()
    }

    open spec fn history(&self) -> Seq<Transfer> {
        (**self).history()
    }

    fn align() -> (a: usize) {
        T::align()
    }

    fn read(&mut self, block_address: u32, data: &mut [[u8; SIZE]]) -> (r: Result<
        (),
        Self::Error,
    >) {
        (**self).read(block_address, data)
    }

    fn write(&mut self, block_address: u32, data: &[[u8; SIZE]]) -> (r: Result<(), Self::Error>) {
        (**self).write(block_address, data)
    }

    fn size(&mut self) -> (r: Result<u64, Self::Error>) {
        (**self).size()
    }
}

/// In a sequence of whole blocks, byte `j` of block `i` is byte `i * SIZE + j`.
pub proof fn lemma_flatten_index<const SIZE: usize>(blocks: Seq<[u8; SIZE]>, i: int, j: int)
    requires
        0 <= i < blocks.len(),
        0 <= j < SIZE,
    ensures
        0 <= i * SIZE + j < flatten(blocks).len(),
        flatten(blocks).len() == blocks.len() * SIZE,
        flatten(blocks)[i * SIZE + j] == blocks[i]@[j],
{
    let k = i * SIZE + j;
    lemma_fundamental_div_mod_converse(k, SIZE as int, i, j);
    assert(k < blocks.len() * SIZE) by (nonlinear_arith)
        requires
            0 <= i < blocks.len(),
            0 <= j < SIZE,
            k == i * SIZE + j,
    ;
}

/// The bytes of a single block are the block.
pub proof fn lemma_flatten_one<const SIZE: usize>(blocks: Seq<[u8; SIZE]>)
    requires
        blocks.len() == 1,
    ensures
        flatten(blocks) == blocks[0]@,
{
    assert(blocks.len() * SIZE == SIZE) by (nonlinear_arith)
        requires
            blocks.len() == 1,
    ;
    assert forall|k: int| 0 <= k < SIZE implies flatten(blocks)[k] == blocks[0]@[k] by {
        lemma_flatten_index(blocks, 0, k);
    }
    assert(flatten(blocks) =~= blocks[0]@);
}

/// Views a byte slice as whole blocks, without copying.
///
/// Wraps `<[u8]>::as_chunks`, which splits a slice into arrays of `SIZE` elements from its
/// start on and a remainder shorter than `SIZE`, and panics when `SIZE` is zero. For a
/// length that is a multiple of `SIZE` the remainder is empty and the arrays hold the
/// slice's bytes in order.
#[verifier::external_body]
pub fn slice_to_blocks<const SIZE: usize>(slice: &[u8]) -> (blocks: &[[u8; SIZE]])
    requires
        SIZE > 0,
        slice@.len() % SIZE as nat == 0,
    ensures
        blocks@.len() == slice@.len() / SIZE as nat,
        flatten(blocks@) == slice@,
{
    slice.as_chunks::<SIZE>().0
}

/// Views a mutable byte slice as whole blocks, without copying.
///
/// Wraps `<[u8]>::as_chunks_mut`, the mutable form of `as_chunks`: what is written to the
/// blocks is written to the slice.
#[verifier::external_body]
pub fn slice_to_blocks_mut<const SIZE: usize>(slice: &mut [u8]) -> (blocks: &mut [[u8; SIZE]])
    requires
        SIZE > 0,
        old(slice)@.len() % SIZE as nat == 0,
    ensures
        blocks@.len() == old(slice)@.len() / SIZE as nat,
        flatten(blocks@) == old(slice)@,
        final(slice)@ == flatten(final(blocks)@),
{
    slice.as_chunks_mut::<SIZE>().0
}

/// Views whole blocks as one byte slice, without copying.
///
/// Wraps `<[[u8; SIZE]]>::as_flattened`, which gives the elements of the arrays in order
/// and panics only when the length overflows, which arrays of bytes cannot cause.
#[verifier::external_body]
pub fn blocks_to_slice<const SIZE: usize>(buf: &[[u8; SIZE]]) -> (slice: &[u8])
    ensures
        slice@ == flatten(buf@),
{
    buf.as_flattened()
}

/// Views mutable whole blocks as one byte slice, without copying.
///
/// Wraps `<[[u8; SIZE]]>::as_flattened_mut`, the mutable form of `as_flattened`: what is
/// written to the slice is written to the blocks, whose number stays.
#[verifier::external_body]
pub fn blocks_to_slice_mut<const SIZE: usize>(buf: &mut [[u8; SIZE]]) -> (slice: &mut [u8])
    ensures
        slice@ == flatten(old(buf)@),
        final(buf)@.len() == old(buf)@.len(),
        flatten(final(buf)@) == final(slice)@,
{
    buf.as_flattened_mut()
}

} // verus!
