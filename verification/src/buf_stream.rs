//! A byte stream over a block device, with a write-back cache of one block.

use crate::block_device_driver::{
    lemma_flatten_one, overwrite, same_outside, slice_to_blocks, slice_to_blocks_mut,
    BlockDevice, Transfer,
};
use crate::io::{ErrorKind, SeekFrom};
use vstd::arithmetic::div_mod::{
    lemma_div_is_ordered, lemma_fundamental_div_mod, lemma_fundamental_div_mod_converse,
};
use vstd::prelude::*;

pub mod laws;

verus! {

/// What can go wrong in a [`BufStream`]: only the device.
#[derive(Copy, Clone, Debug, PartialEq, Eq)]
#[non_exhaustive]
pub enum BufStreamError<T> {
    /// The device reported an error during a transfer.
    Io(T),
}

impl<T> BufStreamError<T> {
    /// The class of the error: always [`ErrorKind::Other`].
    pub fn kind(&self) -> (k: ErrorKind)
        ensures
            k == ErrorKind::Other,
    {
        ErrorKind::Other
    }
}

impl<T> From<T> for BufStreamError<T> {
    fn from(t: T) -> (e: Self) {
        BufStreamError::Io(t)
    }
}

impl<T> vstd::std_specs::convert::FromSpecImpl<T> for BufStreamError<T> {
    open spec fn obeys_from_spec() -> bool {
        true
    }

    open spec fn from_spec(t: T) -> Self {
        BufStreamError::Io(t)
    }
}

/// A stream of bytes over a block device.
///
/// The stream reads and writes any number of bytes at any offset, and turns that into
/// transfers of whole blocks: it keeps one block of the device in a buffer, changes bytes
/// there, and writes the block back when the cursor leaves it, when a write fills it up to
/// its end, or on [`BufStream::flush`].
///
/// A buffer of the caller that is a whole number of blocks long and aligned as the device
/// asks, at a cursor on a block boundary, is handed to the device as it is, in one transfer
/// that does not go through the cache.
pub struct BufStream<T: BlockDevice<SIZE>, const SIZE: usize> {
    inner: T,
    buffer: [[u8; SIZE]; 1],
    current_block: Option<u32>,
    current_offset: u64,
    dirty: bool,
}

/// The offset that a seek by a signed `delta` from `base` arrives at: offsets wrap at `2^64`.
pub open spec fn wrapped_offset(base: int, delta: int) -> u64 {
    ((base + delta) % 0x1_0000_0000_0000_0000) as u64
}

/// Whether a transfer of `len` bytes at `cursor` goes to the device directly: the length is
/// a positive number of whole blocks, the buffer is aligned, and the cursor is on a block
/// boundary.
pub open spec fn is_direct(size: int, len: int, aligned: bool, cursor: int) -> bool {
    &&& len > 0
    &&& len % size == 0
    &&& aligned
    &&& cursor % size == 0
}

/// Whether every byte of a transfer of `len` bytes at `cursor` lies in a block whose
/// address fits the device's 32 bits, and the cursor after it fits its 64 bits. A
/// transfer of no bytes addresses nothing.
pub open spec fn addressable(size: int, cursor: int, len: int) -> bool {
    len > 0 ==> cursor + len <= u64::MAX && (cursor + len - 1) / size <= u32::MAX
}

/// What a transfer of `len` bytes at `cursor` needs to be handed on. On the direct path the
/// device is given the block of the cursor, whose address has to fit its 32 bits; on the
/// other path every byte has to be [`addressable`].
pub open spec fn transferable(size: int, len: int, aligned: bool, cursor: int) -> bool {
    if is_direct(size, len, aligned, cursor) {
        cursor / size <= u32::MAX
    } else {
        addressable(size, cursor, len)
    }
}

/// The transfers by which a cache that holds the block `cached`, dirty or not, comes to hold
/// `block`: none if it holds it; else the block is read, after the cache was written back
/// if it is dirty.
pub open spec fn load_transfers(cached: Option<u32>, dirty: bool, block: u32) -> Seq<Transfer> {
    if cached == Some(block) {
        Seq::empty()
    } else if dirty && cached is Some {
        seq![
            Transfer::Write { block_address: cached.unwrap(), blocks: 1 },
            Transfer::Read { block_address: block, blocks: 1 },
        ]
    } else {
        seq![Transfer::Read { block_address: block, blocks: 1 }]
    }
}

/// The transfer that writes `block` back, if the block was filled.
pub open spec fn written(block: int, filled: bool) -> Seq<Transfer> {
    if filled {
        seq![Transfer::Write { block_address: block as u32, blocks: 1 }]
    } else {
        Seq::empty()
    }
}

/// The first `k` bytes of `out` are the bytes of `src` from `at` on.
pub open spec fn agrees(out: Seq<u8>, k: int, src: Seq<u8>, at: int) -> bool {
    forall|i: int| 0 <= i < k ==> out[i] == src[at + i]
}

impl<T: BlockDevice<SIZE>, const SIZE: usize> BufStream<T, SIZE> {
    /// The device under the stream.
    pub closed spec fn inner(&self) -> T {
        self.inner
    }

    /// The offset of the next byte to read or write, from the start of the stream.
    pub closed spec fn cursor(&self) -> u64 {
        self.current_offset
    }

    /// The address of the block that the buffer holds, if it holds one.
    pub closed spec fn cached_block(&self) -> Option<u32> {
        self.current_block
    }

    /// Whether the buffer holds bytes that the device does not have yet.
    pub closed spec fn is_dirty(&self) -> bool {
        self.dirty
    }

    /// The bytes in the buffer.
    pub closed spec fn cache(&self) -> Seq<u8> {
        self.buffer@[0]@
    }

    /// What holds of every stream between calls: a dirty buffer belongs to a block, the
    /// buffered block lies on the device, and a clean buffer holds what the device holds.
    pub open spec fn wf(&self) -> bool {
        &&& SIZE > 0
        &&& self.cache().len() == SIZE
        &&& self.is_dirty() ==> self.cached_block() is Some
        &&& self.cached_block() matches Some(b) ==> {
            &&& (b + 1) * SIZE <= self.inner().contents().len()
            &&& !self.is_dirty() ==> self.cache() == self.inner().contents().subrange(
                b * SIZE,
                (b + 1) * SIZE,
            )
        }
    }

    /// The bytes of the stream: those of the device, with the buffer laid over its block
    /// while it is dirty.
    pub open spec fn view(&self) -> Seq<u8> {
        if self.is_dirty() && self.cached_block() is Some {
            overwrite(
                self.inner().contents(),
                self.cached_block().unwrap() * SIZE,
                self.cache(),
            )
        } else {
            self.inner().contents()
        }
    }

    /// Whether the cache is the same in both streams: block, buffer and dirty flag.
    pub open spec fn same_cache(&self, other: &Self) -> bool {
        &&& self.cached_block() == other.cached_block()
        &&& self.is_dirty() == other.is_dirty()
        &&& self.cache() == other.cache()
    }

    /// Create a new [`BufStream`] around a hardware block device.
    pub fn new(inner: T) -> (s: Self)
        requires
            SIZE > 0,
        ensures
            s.wf(),
            s.inner() == inner,
            s.cursor() == 0,
            s.cached_block() is None,
            !s.is_dirty(),
            s.cache() == Seq::new(SIZE as nat, |i: int| 0u8),
    {
        let s = Self {
            inner,
            current_block: None,
            current_offset: 0,
            buffer: [[0u8; SIZE]; 1],
            dirty: false,
        };
        assert(s.cache() =~= Seq::new(SIZE as nat, |i: int| 0u8));
        s
    }

    /// Returns inner object. What the buffer holds and the device does not is lost.
    pub fn into_inner(self) -> (inner: T)
        ensures
            inner == self.inner(),
    {
        self.inner
    }

    /// The offset of the next byte to read or write.
    pub fn current_offset(&self) -> (offset: u64)
        ensures
            offset == self.cursor(),
    {
        self.current_offset
    }

    /// The bytes in the buffer.
    pub fn buffer(&self) -> (bytes: &[u8; SIZE])
        ensures
            bytes@ == self.cache(),
    {
        &self.buffer[0]
    }

    /// Whether a transfer of `len` bytes at the cursor stays within the blocks that 32 bits
    /// address and the offsets that 64 bits hold: what [`BufStream::read`] and
    /// [`BufStream::write`] require, and what is enough for both paths.
    pub fn is_addressable(&self, len: usize) -> (b: bool)
        requires
            SIZE > 0,
        ensures
            b == addressable(SIZE as int, self.cursor() as int, len as int),
    {
        if len == 0 {
            return true;
        }
        match self.current_offset.checked_add(len as u64) {
            Some(end) => (end - 1) / SIZE as u64 <= u32::MAX as u64,
            None => false,
        }
    }

    fn pointer_block_start(&self) -> (block: u32)
        requires
            SIZE > 0,
            self.cursor() / SIZE as u64 <= u32::MAX,
        ensures
            block == self.cursor() / SIZE as u64,
    {
        (self.current_offset / SIZE as u64) as u32
    }

    /// Writes the buffer to its block if it is dirty. The flag is cleared only when the
    /// device took the block.
    fn flush_cache(&mut self) -> (r: Result<(), T::Error>)
        requires
            old(self).wf(),
        ensures
            final(self).wf(),
            final(self)@ == old(self)@,
            final(self).cursor() == old(self).cursor(),
            final(self).cached_block() == old(self).cached_block(),
            final(self).cache() == old(self).cache(),
            final(self).inner().contents().len() == old(self).inner().contents().len(),
            !old(self).is_dirty() ==> r is Ok && final(self).inner() == old(self).inner(),
            old(self).is_dirty() ==> final(self).inner().history() == old(
                self,
            ).inner().history().push(
                Transfer::Write { block_address: old(self).cached_block().unwrap(), blocks: 1 },
            ),
            r is Ok ==> !final(self).is_dirty() && final(self).inner().contents() == old(self)@,
            r is Err ==> final(self).is_dirty(),
    {
        if self.dirty {
            let block = self.current_block.unwrap();
            let ghost logical = self@;
            let r = self.inner.write(block, &self.buffer);
            proof {
                lemma_flatten_one(self.buffer@);
                assert(block as int * SIZE + SIZE == (block + 1) * SIZE) by (nonlinear_arith);
            }
            match r {
                Ok(()) => {
                    self.dirty = false;
                    proof {
                        assert(self.inner.contents() =~= logical);
                        assert(self.cache() =~= self.inner.contents().subrange(
                            block * SIZE,
                            (block + 1) * SIZE,
                        ));
                    }
                    Ok(())
                },
                Err(e) => {
                    proof {
                        assert(self@ =~= logical);
                    }
                    Err(e)
                },
            }
        } else {
            Ok(())
        }
    }

    /// Makes the buffer hold the block of the cursor: writes a dirty buffer back, then loads.
    fn check_cache(&mut self) -> (r: Result<(), T::Error>)
        requires
            old(self).wf(),
            old(self).cursor() / SIZE as u64 <= u32::MAX,
        ensures
            final(self).wf(),
            final(self)@ == old(self)@,
            final(self).cursor() == old(self).cursor(),
            final(self).inner().contents().len() == old(self).inner().contents().len(),
            old(self).cached_block() == Some((old(self).cursor() / SIZE as u64) as u32) ==> r is Ok
                && final(self).inner() == old(self).inner() && final(self).same_cache(old(self)),
            r is Ok ==> final(self).cached_block() == Some(
                (old(self).cursor() / SIZE as u64) as u32,
            ),
            r is Ok && old(self).cached_block() != Some((old(self).cursor() / SIZE as u64) as u32)
                ==> !final(self).is_dirty() && final(self).inner().contents() == old(self)@,
            r is Ok ==> final(self).inner().history() == old(self).inner().history()
                + load_transfers(
                old(self).cached_block(),
                old(self).is_dirty(),
                (old(self).cursor() / SIZE as u64) as u32,
            ),
            r is Err && final(self).is_dirty() ==> final(self).same_cache(old(self)),
            r is Err ==> failed_within(
                old(self).inner().history(),
                final(self).inner().history(),
                load_transfers(
                    old(self).cached_block(),
                    old(self).is_dirty(),
                    (old(self).cursor() / SIZE as u64) as u32,
                ),
            ),
    {
        let ghost log = self.inner.history();
        let ghost was_dirty = self.dirty;
        let ghost was_cached = self.current_block;
        let block_start = self.pointer_block_start();
        let ghost load = load_transfers(was_cached, was_dirty, block_start);
        let cached = match self.current_block {
            Some(b) => b == block_start,
            None => false,
        };
        if !cached {
            // we may have modified data in old block, flush it to disk
            match self.flush_cache() {
                Ok(()) => {},
                Err(e) => {
                    proof {
                        // the write of the dirty buffer is the first of the transfers
                        assert(self.inner.history() =~= log + load.take(1));
                    }
                    return Err(e);
                },
            }
            // We have seeked to a new block, read it
            self.current_block = None;
            let r = self.inner.read(block_start, &mut self.buffer);
            proof {
                lemma_flatten_one(self.buffer@);
                assert(block_start as int * SIZE + SIZE == (block_start + 1) * SIZE)
                    by (nonlinear_arith);
            }
            match r {
                Ok(()) => {
                    self.current_block = Some(block_start);
                    proof {
                        assert(self.inner.history() =~= log + load_transfers(
                            was_cached,
                            was_dirty,
                            block_start,
                        ));
                    }
                },
                Err(e) => {
                    proof {
                        // the read is the last of the transfers
                        assert(load.take(load.len() as int) =~= load);
                        assert(self.inner.history() =~= log + load.take(load.len() as int));
                    }
                    return Err(e);
                },
            }
        }
        proof {
            assert(log + Seq::<Transfer>::empty() =~= log);
        }
        Ok(())
    }

    /// Writes the buffer to the device if it holds bytes that the device does not have.
    /// The buffer keeps its block.
    pub fn flush(&mut self) -> (r: Result<(), BufStreamError<T::Error>>)
        requires
            old(self).wf(),
        ensures
            Self::flush_outcome(*old(self), *final(self), r),
    {
        match self.flush_cache() {
            Ok(()) => Ok(()),
            Err(e) => Err(BufStreamError::Io(e)),
        }
    }

    /// What a call of [`BufStream::flush`] that returns `r` makes of the stream `pre`.
    pub open spec fn flush_outcome(pre: Self, post: Self, r: Result<(), BufStreamError<T::Error>>) -> bool {
        &&& post.wf()
        &&& post@ == pre@
        &&& post.cursor() == pre.cursor()
        &&& post.cached_block() == pre.cached_block()
        &&& post.cache() == pre.cache()
        &&& post.inner().contents().len() == pre.inner().contents().len()
        &&& !pre.is_dirty() ==> r is Ok && post.inner() == pre.inner()
        &&& pre.is_dirty() ==> post.inner().history() == pre.inner().history().push(
            Transfer::Write { block_address: pre.cached_block().unwrap(), blocks: 1 },
        )
        &&& r is Ok ==> !post.is_dirty() && post.inner().contents() == pre@
        &&& r is Err ==> post.is_dirty()
    }

    /// Moves the cursor. The cache and the device stay as they are: a cursor in another
    /// block is noticed by the next read or write. `End(x)` is the size of the device plus
    /// `x`; only that seek asks the device, for its size, and only that can fail. Offsets
    /// wrap at `2^64`.
    pub fn seek(&mut self, pos: SeekFrom) -> (r: Result<u64, BufStreamError<T::Error>>)
        requires
            old(self).wf(),
        ensures
            Self::seek_outcome(*old(self), pos, *final(self), r),
    {
        match pos {
            SeekFrom::Start(x) => {
                self.current_offset = x;
            },
            SeekFrom::End(x) => {
                let size = match self.inner.size() {
                    Ok(size) => size,
                    Err(e) => {
                        return Err(BufStreamError::Io(e));
                    },
                };
                self.current_offset = size.wrapping_add_signed(x);
            },
            SeekFrom::Current(x) => {
                self.current_offset = self.current_offset.wrapping_add_signed(x);
            },
        }
        Ok(self.current_offset)
    }

    /// What a call of [`BufStream::seek`] to `pos` that returns `r` makes of the stream `pre`.
    pub open spec fn seek_outcome(
        pre: Self,
        pos: SeekFrom,
        post: Self,
        r: Result<u64, BufStreamError<T::Error>>,
    ) -> bool {
        &&& post.wf()
        &&& post.same_cache(&pre)
        &&& post.inner().contents() == pre.inner().contents()
        &&& post.inner().history() == pre.inner().history()
        &&& post@ == pre@
        &&& match pos {
            SeekFrom::Start(x) => r == Ok::<u64, BufStreamError<T::Error>>(x) && post.inner()
                == pre.inner(),
            SeekFrom::Current(x) => r == Ok::<u64, BufStreamError<T::Error>>(
                wrapped_offset(pre.cursor() as int, x as int),
            ) && post.inner() == pre.inner(),
            SeekFrom::End(x) => r matches Ok(c) ==> c == wrapped_offset(
                pre.inner().contents().len() as int,
                x as int,
            ),
        }
        &&& match r {
            Ok(c) => post.cursor() == c,
            Err(_) => post.cursor() == pre.cursor(),
        }
    }

    /// Reads through the cache until `buf` is full.
    #[verifier::rlimit(40)]
    fn read_cached(&mut self, buf: &mut [u8]) -> (r: Result<usize, BufStreamError<T::Error>>)
        requires
            old(self).wf(),
            addressable(SIZE as int, old(self).cursor() as int, old(buf)@.len() as int),
        ensures
            final(self).wf(),
            final(buf)@.len() == old(buf)@.len(),
            final(self)@ == old(self)@,
            Self::cached_read(*old(self), *final(self), final(buf)@, r),
    {
        let target = buf.len();
        if target == 0 {
            // there is nothing to read
            return Ok(0);
        }
        let mut total: usize = 0;
        let ghost c0 = self.cursor() as int;
        let ghost pre = *self;
        loop
            invariant
                self.wf(),
                pre == *old(self),
                pre.wf(),
                c0 == pre.cursor(),
                target > 0,
                target == buf@.len(),
                target == old(buf)@.len(),
                total <= target,
                total < target,
                self.cursor() == c0 + total,
                self@ == pre@,
                addressable(SIZE as int, c0, target as int),
                total > 0 ==> c0 + total <= pre@.len(),
                agrees(buf@, total as int, pre@, c0),
                total > 0 ==> self.cached_block() == Some(((c0 + total - 1) / SIZE as int) as u32),
                total > 0 ==> (c0 + total) % SIZE as int == 0,
                total > 0 ==> self.is_dirty() == Self::stays_dirty(pre, c0 + total - 1),
                total > 0 ==> self.inner().history() == pre.inner().history()
                    + Self::cached_read_transfers(
                    pre,
                    c0 / SIZE as int,
                    (c0 + total - 1) / SIZE as int,
                ),
                total == 0 ==> self.inner().history() == pre.inner().history(),
                total == 0 ==> self.same_cache(&pre) && self.inner().contents()
                    == pre.inner().contents(),
                self.is_dirty() ==> self.same_cache(&pre) && self.inner().contents()
                    == pre.inner().contents(),
            decreases target - total,
        {
            let ghost c = self.cursor() as int;
            proof {
                lemma_div_is_ordered(c, c0 + target - 1, SIZE as int);
                if total > 0 {
                    // the cursor has left the block that the cache holds
                    lemma_fundamental_div_mod(c, SIZE as int);
                    let q = c / SIZE as int;
                    assert(c - 1 == (q - 1) * SIZE + (SIZE - 1)) by (nonlinear_arith)
                        requires
                            c == SIZE * q,
                    ;
                    lemma_fundamental_div_mod_converse(c - 1, SIZE as int, q - 1, SIZE - 1);
                    lemma_div_is_ordered(c0, c - 1, SIZE as int);
                    lemma_div_is_ordered(0, c0, SIZE as int);
                    Self::lemma_read_transfers_step(pre, c0 / SIZE as int, q - 1);
                } else {
                    Self::lemma_read_transfers_first(pre, c0 / SIZE as int);
                }
            }
            let ghost step = load_transfers(
                self.cached_block(),
                self.is_dirty(),
                (c / SIZE as int) as u32,
            );
            let ghost first = c0 / SIZE as int;
            let ghost last = (c0 + target - 1) / SIZE as int;
            let ghost sofar = if total > 0 {
                Self::cached_read_transfers(pre, first, c / SIZE as int - 1)
            } else {
                Seq::empty()
            };
            proof {
                lemma_div_is_ordered(c0, c, SIZE as int);
                lemma_div_is_ordered(0, c0, SIZE as int);
                assert(sofar + step =~= Self::cached_read_transfers(pre, first, c / SIZE as int));
                assert(self.inner().history() =~= pre.inner().history() + sofar);
            }
            match self.check_cache() {
                Ok(()) => {},
                Err(e) => {
                    proof {
                        // the transfer that failed is one of the transfers of the read
                        Self::lemma_read_transfers_prefix(pre, first, c / SIZE as int, last);
                        lemma_failed_within_extends(
                            pre.inner().history(),
                            sofar,
                            step,
                            self.inner().history(),
                            Self::cached_read_transfers(pre, first, last),
                        );
                    }
                    return Err(BufStreamError::Io(e));
                },
            }
            let ghost b = (c / SIZE as int) as u32;
            proof {
                // what the load added is the next part of the transfers of the read
                let h = pre.inner().history();
                if total > 0 {
                    let sofar = Self::cached_read_transfers(pre, c0 / SIZE as int, b - 1);
                    assert((h + sofar) + step =~= h + (sofar + step));
                } else {
                    assert(h + step == h + Self::cached_read_transfers(
                        pre,
                        c0 / SIZE as int,
                        c0 / SIZE as int,
                    ));
                }
                assert(self.inner().history() == h + Self::cached_read_transfers(
                    pre,
                    c0 / SIZE as int,
                    b as int,
                ));
            }
            let off = (self.current_offset % SIZE as u64) as usize;
            let n = if SIZE - off < target - total {
                SIZE - off
            } else {
                target - total
            };
            proof {
                lemma_fundamental_div_mod(c, SIZE as int);
                self.lemma_cache_is_view(b);
                assert(c == b * SIZE + off) by (nonlinear_arith)
                    requires
                        c == SIZE * (c / SIZE as int) + c % SIZE as int,
                        b == c / SIZE as int,
                        off == c % SIZE as int,
                ;
            }
            let mut j: usize = 0;
            while j < n
                invariant
                    j <= n,
                    off + n <= SIZE,
                    total + n <= target,
                    target == buf@.len(),
                    self.cache().len() == SIZE,
                    c == b * SIZE + off,
                    c == c0 + total,
                    self@ == pre@,
                    c + n <= pre@.len(),
                    forall|k: int| 0 <= k < SIZE ==> self@[b * SIZE + k] == #[trigger] self.cache()[k],
                    agrees(buf@, total + j, pre@, c0),
                decreases n - j,
            {
                buf[total + j] = self.buffer[0][off + j];
                proof {
                    assert(self.cache()[off + j] == self@[b * SIZE + (off + j)]);
                }
                j += 1;
            }
            proof {
                if n > 0 {
                    lemma_fundamental_div_mod_converse(
                        c + n - 1,
                        SIZE as int,
                        b as int,
                        off + n - 1,
                    );
                }
                if off + n == SIZE {
                    lemma_fundamental_div_mod_converse(c + n, SIZE as int, b + 1, 0);
                }
            }
            self.current_offset += n as u64;
            total += n;
            if total == target {
                proof {
                    assert(buf@ =~= pre@.subrange(c0, c0 + target));
                }
                return Ok(total);
            }
        }
    }

    proof fn lemma_read_transfers_step(pre: Self, first: int, last: int)
        requires
            0 <= first <= last < u32::MAX,
        ensures
            Self::cached_read_transfers(pre, first, last + 1) == Self::cached_read_transfers(
                pre,
                first,
                last,
            ) + load_transfers(
                Some(last as u32),
                pre.is_dirty() && pre.cached_block() == Some(first as u32) && last == first,
                (last + 1) as u32,
            ),
    {
        assert(Self::cached_read_transfers(pre, first, last + 1)
            =~= Self::cached_read_transfers(pre, first, last) + load_transfers(
            Some(last as u32),
            pre.is_dirty() && pre.cached_block() == Some(first as u32) && last == first,
            (last + 1) as u32,
        ));
    }

    /// What a transfer of no bytes that returns `r` makes of the stream `pre`: nothing. It
    /// succeeds, and device, cache and cursor are as they were.
    pub open spec fn nothing_moved(
        pre: Self,
        post: Self,
        r: Result<usize, BufStreamError<T::Error>>,
    ) -> bool {
        &&& r == Ok::<usize, BufStreamError<T::Error>>(0)
        &&& post.inner() == pre.inner()
        &&& post.same_cache(&pre)
        &&& post.cursor() == pre.cursor()
    }

    /// What a read through the cache that returns `r` makes of the stream `pre`, and which
    /// bytes `out` it leaves in the caller's buffer. A read of no bytes does nothing.
    ///
    /// The read succeeds where it asks the device for nothing, which is where it stays in
    /// the block that the cache holds. It fails only where the device has failed one of
    /// its transfers: that one is then the last that the device was asked for, the cursor
    /// stands behind the bytes of the blocks before, and those bytes are in the buffer.
    pub open spec fn cached_read(
        pre: Self,
        post: Self,
        out: Seq<u8>,
        r: Result<usize, BufStreamError<T::Error>>,
    ) -> bool {
        let c = pre.cursor() as int;
        let n = out.len() as int;
        let first = c / SIZE as int;
        let last = (c + n - 1) / SIZE as int;
        &&& post.is_dirty() ==> post.same_cache(&pre)
        &&& if n == 0 {
            Self::nothing_moved(pre, post, r)
        } else {
            &&& pre.cached_block() == Some(first as u32) && last == first ==> r is Ok
            &&& match r {
                Ok(k) => {
                    &&& k == n
                    &&& post.cursor() == c + n
                    &&& c + n <= pre@.len()
                    &&& out == pre@.subrange(c, c + n)
                    &&& post.cached_block() == Some(last as u32)
                    &&& post.is_dirty() == Self::stays_dirty(pre, c + n - 1)
                    &&& post.is_dirty() ==> post.inner().contents() == pre.inner().contents()
                    &&& post.inner().history() == pre.inner().history()
                        + Self::cached_read_transfers(pre, first, last)
                },
                Err(_) => {
                    &&& c <= post.cursor() <= c + n
                    &&& post.cursor() > c ==> post.cursor() <= pre@.len()
                    &&& agrees(out, post.cursor() - c, pre@, c)
                    &&& failed_within(
                        pre.inner().history(),
                        post.inner().history(),
                        Self::cached_read_transfers(pre, first, last),
                    )
                },
            }
        }
    }

    /// Writes through the cache until `buf` is used up. A block that a write fills up to
    /// its end goes to the device at once.
    #[verifier::rlimit(40)]
    fn write_cached(&mut self, buf: &[u8]) -> (r: Result<usize, BufStreamError<T::Error>>)
        requires
            old(self).wf(),
            addressable(SIZE as int, old(self).cursor() as int, buf@.len() as int),
        ensures
            final(self).wf(),
            Self::cached_write(*old(self), *final(self), buf@, r),
    {
        let target = buf.len();
        if target == 0 {
            // there is nothing to write
            return Ok(0);
        }
        let mut total: usize = 0;
        let ghost c0 = self.cursor() as int;
        let ghost pre = *self;
        proof {
            assert(overwrite(pre@, c0, buf@.subrange(0, 0)) =~= pre@);
        }
        loop
            invariant
                self.wf(),
                pre == *old(self),
                pre.wf(),
                c0 == pre.cursor(),
                target > 0,
                target == buf@.len(),
                total <= target,
                total < target,
                self.cursor() == c0 + total,
                addressable(SIZE as int, c0, target as int),
                total > 0 ==> c0 + total <= pre@.len(),
                self@ == overwrite(pre@, c0, buf@.subrange(0, total as int)),
                total > 0 ==> self.cached_block() == Some(((c0 + total - 1) / SIZE as int) as u32),
                total > 0 ==> self.is_dirty() == ((c0 + total) % SIZE as int != 0),
                total > 0 ==> (c0 + total) % SIZE as int == 0,
                total > 0 ==> self.inner().history() == pre.inner().history()
                    + Self::cached_write_transfers(
                    pre,
                    c0 / SIZE as int,
                    (c0 + total - 1) / SIZE as int,
                    true,
                ),
                total == 0 ==> self.same_cache(&pre) && self.inner() == pre.inner(),
            decreases target - total,
        {
            let ghost c = self.cursor() as int;
            let ghost first = c0 / SIZE as int;
            proof {
                lemma_div_is_ordered(c, c0 + target - 1, SIZE as int);
                lemma_div_is_ordered(0, c0, SIZE as int);
                if total > 0 {
                    // the cursor has left the block that the cache holds
                    lemma_fundamental_div_mod(c, SIZE as int);
                    let q = c / SIZE as int;
                    assert(c - 1 == (q - 1) * SIZE + (SIZE - 1)) by (nonlinear_arith)
                        requires
                            c == SIZE * q,
                    ;
                    lemma_fundamental_div_mod_converse(c - 1, SIZE as int, q - 1, SIZE - 1);
                    lemma_div_is_ordered(c0, c - 1, SIZE as int);
                }
            }
            let ghost head = *self;
            let ghost last = (c0 + target - 1) / SIZE as int;
            let ghost ends = (c0 + target) % SIZE as int == 0;
            let ghost step = load_transfers(
                self.cached_block(),
                self.is_dirty(),
                (c / SIZE as int) as u32,
            );
            let ghost sofar = if total > 0 {
                Self::cached_write_transfers(pre, first, c / SIZE as int - 1, true)
            } else {
                Seq::empty()
            };
            proof {
                lemma_div_is_ordered(c0, c, SIZE as int);
                assert(sofar + step =~= Self::cached_write_transfers(
                    pre,
                    first,
                    c / SIZE as int,
                    false,
                ));
                assert(self.inner().history() =~= pre.inner().history() + sofar);
            }
            match self.check_cache() {
                Ok(()) => {},
                Err(e) => {
                    proof {
                        // the transfer that failed is one of the transfers of the write
                        Self::lemma_write_transfers_prefix(
                            pre,
                            first,
                            c / SIZE as int,
                            false,
                            last,
                            ends,
                        );
                        lemma_failed_within_extends(
                            pre.inner().history(),
                            sofar,
                            step,
                            self.inner().history(),
                            Self::cached_write_transfers(pre, first, last, ends),
                        );
                    }
                    return Err(BufStreamError::Io(e));
                },
            }
            let ghost b = (c / SIZE as int) as u32;
            let off = (self.current_offset % SIZE as u64) as usize;
            let n = if SIZE - off < target - total {
                SIZE - off
            } else {
                target - total
            };
            proof {
                lemma_fundamental_div_mod(c, SIZE as int);
                self.lemma_cache_is_view(b);
                assert(c == b * SIZE + off) by (nonlinear_arith)
                    requires
                        c == SIZE * (c / SIZE as int) + c % SIZE as int,
                        b == c / SIZE as int,
                        off == c % SIZE as int,
                ;
            }
            let ghost loaded = *self;
            // the cache will hold what the device does not
            let ghost clean = *self;
            self.dirty = true;
            proof {
                assert(self@ =~= clean@);
            }
            let mut j: usize = 0;
            while j < n
                invariant
                    j <= n,
                    off + n <= SIZE,
                    total + n <= target,
                    target == buf@.len(),
                    self.wf(),
                    self.is_dirty(),
                    self.cached_block() == Some(b),
                    self.cursor() == c,
                    self.inner() == loaded.inner(),
                    c == b * SIZE + off,
                    c == c0 + total,
                    c + n <= pre@.len(),
                    b * SIZE + SIZE <= pre@.len(),
                    self@ == overwrite(pre@, c0, buf@.subrange(0, total + j)),
                decreases n - j,
            {
                let ghost before = *self;
                self.buffer[0][off + j] = buf[total + j];
                proof {
                    let next = overwrite(pre@, c0, buf@.subrange(0, total + j + 1));
                    assert(self.cache() == before.cache().update(off + j, buf@[total + j]));
                    assert(self.inner().contents() == before.inner().contents());
                    assert(before@.len() == pre@.len());
                    assert(before@.len() == before.inner().contents().len());
                    assert(self@.len() == self.inner().contents().len());
                    assert(self@.len() == next.len());
                    assert forall|i: int| 0 <= i < next.len() implies self@[i] == next[i] by {
                        if i == c + j {
                            assert(self@[i] == self.cache()[i - b * SIZE]);
                        } else {
                            assert(self@[i] == before@[i]);
                        }
                    }
                    assert(self@ =~= next);
                }
                j += 1;
            }
            // write out the whole block with the modified data
            if off + n == SIZE {
                proof {
                    // the block is the last of the write, or the write goes on behind it
                    lemma_fundamental_div_mod_converse(c + n, SIZE as int, b + 1, 0);
                    if total + n < target {
                        lemma_div_is_ordered(c + n, c0 + target - 1, SIZE as int);
                    }
                }
                match self.flush_cache() {
                    Ok(()) => {},
                    Err(e) => {
                        proof {
                            // the write of the block is one of the transfers of the write
                            let h = pre.inner().history();
                            let done = Self::cached_write_transfers(pre, first, b as int, true);
                            let all = Self::cached_write_transfers(pre, first, last, ends);
                            assert(loaded.inner().history() == (h + sofar) + step);
                            assert(self.inner().history() =~= h + done);
                            Self::lemma_write_transfers_prefix(
                                pre,
                                first,
                                b as int,
                                true,
                                last,
                                ends,
                            );
                            assert(done.len() >= 1);
                            assert(self.inner().history() == h + all.take(done.len() as int));
                        }
                        return Err(BufStreamError::Io(e));
                    },
                }
            }
            proof {
                // what the load and the flush added are the next transfers of the write
                let h = pre.inner().history();
                let filled = off + n == SIZE;
                let load = load_transfers(head.cached_block(), head.is_dirty(), b);
                assert(loaded.inner().history() == head.inner().history() + load);
                assert(self.inner().history() == loaded.inner().history() + written(
                    b as int,
                    filled,
                )) by {
                    assert(loaded.inner().history() + Seq::<Transfer>::empty()
                        =~= loaded.inner().history());
                    assert(loaded.inner().history() + seq![
                        Transfer::Write { block_address: b, blocks: 1 },
                    ] =~= loaded.inner().history().push(
                        Transfer::Write { block_address: b, blocks: 1 },
                    ));
                }
                if total > 0 {
                    let sofar = Self::cached_write_transfers(pre, first, b - 1, true);
                    assert(load =~= seq![Transfer::Read { block_address: b, blocks: 1 }]);
                    assert(((h + sofar) + load) + written(b as int, filled) =~= h + ((sofar
                        + load) + written(b as int, filled)));
                } else {
                    assert((h + load) + written(b as int, filled) =~= h + (load + written(
                        b as int,
                        filled,
                    )));
                }
                assert(self.inner().history() == h + Self::cached_write_transfers(
                    pre,
                    first,
                    b as int,
                    filled,
                ));
                if !filled {
                    // the device has the last block as it was
                    let kept = if pre.cached_block() == Some(b) && first == b {
                        pre.inner().contents()
                    } else {
                        pre@
                    };
                    let device = self.inner().contents();
                    let expected = overwrite(
                        self@,
                        b * SIZE,
                        kept.subrange(b * SIZE, (b + 1) * SIZE),
                    );
                    assert(device == loaded.inner().contents());
                    assert(device.len() == expected.len());
                    assert forall|i: int| 0 <= i < device.len() implies device[i]
                        == expected[i] by {
                        if total > 0 {
                            assert(device == head@);
                        } else if head.cached_block() == Some(b) {
                            assert(device == pre.inner().contents());
                            assert(pre@[i] == overwrite(
                                pre.inner().contents(),
                                b * SIZE,
                                pre.cache(),
                            )[i] || pre@ == pre.inner().contents());
                        } else {
                            assert(device == pre@);
                        }
                    }
                    assert(device =~= expected);
                }
                if n > 0 {
                    lemma_fundamental_div_mod_converse(
                        c + n - 1,
                        SIZE as int,
                        b as int,
                        off + n - 1,
                    );
                }
                if off + n == SIZE {
                    lemma_fundamental_div_mod_converse(c + n, SIZE as int, b + 1, 0);
                } else {
                    lemma_fundamental_div_mod_converse(c + n, SIZE as int, b as int, off + n);
                }
            }
            self.current_offset += n as u64;
            total += n;
            if total == target {
                proof {
                    assert(buf@.subrange(0, total as int) =~= buf@);
                }
                return Ok(total);
            }
        }
    }

    /// While the buffer holds block `b`, its bytes are those of the stream in that block.
    proof fn lemma_cache_is_view(&self, b: u32)
        requires
            self.wf(),
            self.cached_block() == Some(b),
        ensures
            (b + 1) * SIZE <= self@.len(),
            self@.len() == self.inner().contents().len(),
            0 <= b * SIZE,
            b * SIZE + SIZE == (b + 1) * SIZE,
            forall|k: int| 0 <= k < SIZE ==> self@[b * SIZE + k] == #[trigger] self.cache()[k],
    {
        assert(0 <= b * SIZE && b * SIZE + SIZE == (b + 1) * SIZE) by (nonlinear_arith)
            requires
                0 <= b,
                0 < SIZE,
        ;
    }

    /// The transfers of a read through the cache that begins in the block `first` and ends in
    /// the block `last`: the first block is loaded unless the cache holds it, and every
    /// further block is read; before the first read that replaces a dirty buffer, the buffer
    /// is written back.
    pub open spec fn cached_read_transfers(pre: Self, first: int, last: int) -> Seq<Transfer> {
        load_transfers(pre.cached_block(), pre.is_dirty(), first as u32) + (if last > first
            && pre.is_dirty() && pre.cached_block() == Some(first as u32) {
            seq![Transfer::Write { block_address: first as u32, blocks: 1 }]
        } else {
            Seq::empty()
        }) + Seq::new(
            (last - first) as nat,
            |i: int| Transfer::Read { block_address: (first + 1 + i) as u32, blocks: 1 },
        )
    }

    proof fn lemma_read_transfers_first(pre: Self, first: int)
        ensures
            Self::cached_read_transfers(pre, first, first) == load_transfers(
                pre.cached_block(),
                pre.is_dirty(),
                first as u32,
            ),
    {
        assert(Self::cached_read_transfers(pre, first, first) =~= load_transfers(
            pre.cached_block(),
            pre.is_dirty(),
            first as u32,
        ));
    }

    /// The transfers of a read up to the block `b` are the first of the transfers of a
    /// read up to a later block.
    proof fn lemma_read_transfers_prefix(pre: Self, first: int, b: int, last: int)
        requires
            0 <= first <= b <= last <= u32::MAX,
        ensures
            Self::cached_read_transfers(pre, first, b).len() <= Self::cached_read_transfers(
                pre,
                first,
                last,
            ).len(),
            Self::cached_read_transfers(pre, first, last).take(
                Self::cached_read_transfers(pre, first, b).len() as int,
            ) == Self::cached_read_transfers(pre, first, b),
    {
        assert(Self::cached_read_transfers(pre, first, last).take(
            Self::cached_read_transfers(pre, first, b).len() as int,
        ) =~= Self::cached_read_transfers(pre, first, b));
    }

    /// Whether the cache of the stream `pre` is still dirty after a read through the cache
    /// that ends with the byte at `end`: only if it was, and the read has not left its
    /// block.
    pub open spec fn stays_dirty(pre: Self, end: int) -> bool {
        &&& pre.is_dirty()
        &&& pre.cached_block() == Some((pre.cursor() as int / SIZE as int) as u32)
        &&& end / SIZE as int == pre.cursor() as int / SIZE as int
    }

    /// The transfers of a write through the cache that begins in the block `first` and ends
    /// in the block `last`, and fills that one up to its end or not: the first block is
    /// loaded unless the cache holds it, and every further block is read; each block goes to
    /// the device as soon as the write has filled it up to its end.
    pub open spec fn cached_write_transfers(
        pre: Self,
        first: int,
        last: int,
        ends_block: bool,
    ) -> Seq<Transfer>
        decreases last - first,
    {
        if last <= first {
            load_transfers(pre.cached_block(), pre.is_dirty(), first as u32) + written(
                first,
                ends_block,
            )
        } else {
            Self::cached_write_transfers(pre, first, last - 1, true) + seq![
                Transfer::Read { block_address: last as u32, blocks: 1 },
            ] + written(last, ends_block)
        }
    }

    /// The transfers of a write up to the block `b` are the first of the transfers of a
    /// write up to a later block, and of one that does more to the block `b`.
    proof fn lemma_write_transfers_prefix(
        pre: Self,
        first: int,
        b: int,
        filled: bool,
        last: int,
        ends: bool,
    )
        requires
            0 <= first <= b <= last <= u32::MAX,
            b < last || !filled || ends,
        ensures
            Self::cached_write_transfers(pre, first, b, filled).len()
                <= Self::cached_write_transfers(pre, first, last, ends).len(),
            Self::cached_write_transfers(pre, first, last, ends).take(
                Self::cached_write_transfers(pre, first, b, filled).len() as int,
            ) == Self::cached_write_transfers(pre, first, b, filled),
        decreases last - b,
    {
        let part = Self::cached_write_transfers(pre, first, b, filled);
        let all = Self::cached_write_transfers(pre, first, last, ends);
        if b < last {
            Self::lemma_write_transfers_prefix(pre, first, b, filled, last - 1, true);
            let shorter = Self::cached_write_transfers(pre, first, last - 1, true);
            assert(all.take(part.len() as int) =~= shorter.take(part.len() as int));
        } else {
            assert(all.take(part.len() as int) =~= part);
        }
    }

    /// What a write through the cache of `data` that returns `r` makes of the stream `pre`.
    /// A write of no bytes does nothing.
    ///
    /// The write succeeds where it asks the device for nothing, which is where it stays in
    /// the block that the cache holds and does not fill it up to its end. It fails only
    /// where the device has failed one of its transfers: that one is then the last that
    /// the device was asked for, and the cursor stands behind the bytes of the blocks
    /// before.
    pub open spec fn cached_write(
        pre: Self,
        post: Self,
        data: Seq<u8>,
        r: Result<usize, BufStreamError<T::Error>>,
    ) -> bool {
        let c = pre.cursor() as int;
        let n = data.len() as int;
        let first = c / SIZE as int;
        let last = (c + n - 1) / SIZE as int;
        let ends = (c + n) % SIZE as int == 0;
        &&& same_outside(post@, pre@, c, c + n)
        &&& if n == 0 {
            Self::nothing_moved(pre, post, r)
        } else {
            &&& pre.cached_block() == Some(first as u32) && last == first && !ends ==> r is Ok
            &&& match r {
                Ok(k) => {
                    &&& k == n
                    &&& post.cursor() == c + n
                    &&& c + n <= pre@.len()
                    &&& post@ == overwrite(pre@, c, data)
                    &&& post.cached_block() == Some(last as u32)
                    &&& post.is_dirty() == !ends
                    &&& post.inner().history() == pre.inner().history()
                        + Self::cached_write_transfers(pre, first, last, ends)
                    &&& post.is_dirty() ==> post.inner().contents() == overwrite(
                        post@,
                        last * SIZE,
                        (if pre.cached_block() == Some(last as u32) && first == last {
                            pre.inner().contents()
                        } else {
                            pre@
                        }).subrange(last * SIZE, (last + 1) * SIZE),
                    )
                },
                Err(_) => {
                    &&& c <= post.cursor() <= c + n
                    &&& post.cursor() > c ==> post.cursor() <= pre@.len()
                    &&& agrees(data, post.cursor() - c, post@, c)
                    &&& failed_within(
                        pre.inner().history(),
                        post.inner().history(),
                        Self::cached_write_transfers(pre, first, last, ends),
                    )
                },
            }
        }
    }

    /// Reads bytes at the cursor until `buf` is full, and moves the cursor behind them.
    ///
    /// Whether the transfer goes to the device directly depends on where `buf` lies in
    /// memory: see [`BufStream::read_with_alignment`], which this calls with what it found.
    pub fn read(&mut self, buf: &mut [u8]) -> (r: Result<usize, BufStreamError<T::Error>>)
        requires
            old(self).wf(),
            addressable(SIZE as int, old(self).cursor() as int, old(buf)@.len() as int),
        ensures
            final(buf)@.len() == old(buf)@.len(),
            exists|aligned: bool|
                Self::read_outcome(*old(self), aligned, *final(self), final(buf)@, r),
    {
        let aligned = start_address(buf) % T::align() == 0;
        proof {
            if buf@.len() > 0 {
                lemma_div_is_ordered(
                    self.cursor() as int,
                    self.cursor() + buf@.len() - 1,
                    SIZE as int,
                );
            }
        }
        self.read_with_alignment(buf, aligned)
    }

    /// Reads bytes at the cursor until `buf` is full, and moves the cursor behind them;
    /// `aligned` says whether `buf` starts at an address that the device accepts.
    ///
    /// The path is chosen once, before anything is transferred. On the direct path the
    /// device fills `buf` in one transfer, from what it stores: bytes that only the cache
    /// holds are not seen, and the cache stays as it is. On the other path the bytes come
    /// from the cache, block by block.
    pub fn read_with_alignment(&mut self, buf: &mut [u8], aligned: bool) -> (r: Result<
        usize,
        BufStreamError<T::Error>,
    >)
        requires
            old(self).wf(),
            transferable(
                SIZE as int,
                old(buf)@.len() as int,
                aligned,
                old(self).cursor() as int,
            ),
        ensures
            final(buf)@.len() == old(buf)@.len(),
            Self::read_outcome(*old(self), aligned, *final(self), final(buf)@, r),
    {
        let n = buf.len();
        if n > 0 && n % SIZE == 0 && aligned && self.current_offset % SIZE as u64 == 0 {
            // the buffer has a suitable length and alignment and the read head is on a
            // block boundary: use it directly
            let block = self.pointer_block_start();
            proof {
                lemma_fundamental_div_mod(self.cursor() as int, SIZE as int);
                lemma_fundamental_div_mod(n as int, SIZE as int);
                lemma_whole_blocks(SIZE as int, self.cursor() as int, n as int);
            }
            match self.inner.read(block, slice_to_blocks_mut(buf)) {
                Ok(()) => {
                    self.current_offset += n as u64;
                    Ok(n)
                },
                Err(e) => Err(BufStreamError::Io(e)),
            }
        } else {
            self.read_cached(buf)
        }
    }

    /// What a call of [`BufStream::read_with_alignment`] that returns `r` makes of the
    /// stream `pre`, and which bytes `out` it leaves in the caller's buffer.
    pub open spec fn read_outcome(
        pre: Self,
        aligned: bool,
        post: Self,
        out: Seq<u8>,
        r: Result<usize, BufStreamError<T::Error>>,
    ) -> bool {
        let c = pre.cursor() as int;
        let n = out.len() as int;
        &&& post.wf()
        &&& post@ == pre@
        &&& if is_direct(SIZE as int, n, aligned, c) {
            &&& post.same_cache(&pre)
            &&& post.inner().contents() == pre.inner().contents()
            &&& post.inner().history() == pre.inner().history().push(
                Transfer::Read {
                    block_address: (c / SIZE as int) as u32,
                    blocks: (n / SIZE as int) as nat,
                },
            )
            &&& match r {
                Ok(k) => {
                    &&& k == n
                    &&& post.cursor() == c + n
                    &&& c + n <= pre.inner().contents().len()
                    &&& out == pre.inner().contents().subrange(c, c + n)
                },
                Err(_) => post.cursor() == c,
            }
        } else {
            Self::cached_read(pre, post, out, r)
        }
    }

    /// Writes all of `buf` at the cursor, and moves the cursor behind it.
    ///
    /// Whether the transfer goes to the device directly depends on where `buf` lies in
    /// memory: see [`BufStream::write_with_alignment`], which this calls with what it found.
    pub fn write(&mut self, buf: &[u8]) -> (r: Result<usize, BufStreamError<T::Error>>)
        requires
            old(self).wf(),
            addressable(SIZE as int, old(self).cursor() as int, buf@.len() as int),
        ensures
            exists|aligned: bool| Self::write_outcome(*old(self), buf@, aligned, *final(self), r),
    {
        let aligned = start_address(buf) % T::align() == 0;
        proof {
            if buf@.len() > 0 {
                lemma_div_is_ordered(
                    self.cursor() as int,
                    self.cursor() + buf@.len() - 1,
                    SIZE as int,
                );
            }
        }
        self.write_with_alignment(buf, aligned)
    }

    /// Writes all of `buf` at the cursor, and moves the cursor behind it; `aligned` says
    /// whether `buf` starts at an address that the device accepts.
    ///
    /// The path is chosen once, before anything is transferred. On the direct path the
    /// device takes `buf` in one transfer and the buffer of the cache is not touched; a
    /// cached block that the transfer covers is dropped from the cache, since the device
    /// now holds newer bytes. On the other path the bytes go through the cache, block by
    /// block, and stay there until the block is written back.
    pub fn write_with_alignment(&mut self, buf: &[u8], aligned: bool) -> (r: Result<
        usize,
        BufStreamError<T::Error>,
    >)
        requires
            old(self).wf(),
            transferable(SIZE as int, buf@.len() as int, aligned, old(self).cursor() as int),
        ensures
            Self::write_outcome(*old(self), buf@, aligned, *final(self), r),
    {
        let n = buf.len();
        if n > 0 && n % SIZE == 0 && aligned && self.current_offset % SIZE as u64 == 0 {
            // the buffer has a suitable length and alignment and the write head is on a
            // block boundary: use it directly
            let block = self.pointer_block_start();
            let count = n / SIZE;
            let ghost pre = *self;
            let ghost c = self.cursor() as int;
            proof {
                lemma_fundamental_div_mod(c, SIZE as int);
                lemma_fundamental_div_mod(n as int, SIZE as int);
                lemma_whole_blocks(SIZE as int, c, n as int);
                if let Some(b) = self.current_block {
                    lemma_block_in_range(SIZE as int, block as int, count as int, b as int);
                }
            }
            let covered = match self.current_block {
                Some(b) => b >= block && ((b - block) as usize) < count,
                None => false,
            };
            if covered {
                self.current_block = None;
                self.dirty = false;
            }
            let r = self.inner.write(block, slice_to_blocks(buf));
            proof {
                if let Some(b) = self.current_block {
                    // the cached block lies outside the blocks that were written
                    assert(self.inner.contents().subrange(b * SIZE, (b + 1) * SIZE)
                        =~= pre.inner.contents().subrange(b * SIZE, (b + 1) * SIZE));
                }
                assert(same_outside(self@, pre@, c, c + n));
            }
            match r {
                Ok(()) => {
                    self.current_offset += n as u64;
                    proof {
                        assert(self@ =~= overwrite(pre@, c, buf@));
                    }
                    Ok(n)
                },
                Err(e) => Err(BufStreamError::Io(e)),
            }
        } else {
            self.write_cached(buf)
        }
    }

    /// What a call of [`BufStream::write_with_alignment`] with `data` that returns `r`
    /// makes of the stream `pre`.
    pub open spec fn write_outcome(
        pre: Self,
        data: Seq<u8>,
        aligned: bool,
        post: Self,
        r: Result<usize, BufStreamError<T::Error>>,
    ) -> bool {
        let c = pre.cursor() as int;
        let n = data.len() as int;
        let first = c / SIZE as int;
        let count = n / SIZE as int;
        &&& post.wf()
        &&& same_outside(post@, pre@, c, c + n)
        &&& if is_direct(SIZE as int, n, aligned, c) {
            &&& post.inner().history() == pre.inner().history().push(
                Transfer::Write { block_address: first as u32, blocks: count as nat },
            )
            &&& post.cache() == pre.cache()
            &&& if pre.cached_block() is Some && first <= pre.cached_block().unwrap() < first
                + count {
                post.cached_block() is None && !post.is_dirty()
            } else {
                post.cached_block() == pre.cached_block() && post.is_dirty() == pre.is_dirty()
            }
            &&& match r {
                Ok(k) => {
                    &&& k == n
                    &&& post.cursor() == c + n
                    &&& c + n <= pre@.len()
                    &&& post@ == overwrite(pre@, c, data)
                    &&& post.inner().contents() == overwrite(pre.inner().contents(), c, data)
                },
                Err(_) => post.cursor() == c,
            }
        } else {
            Self::cached_write(pre, post, data, r)
        }
    }
}

/// The device has failed one of `transfers`: `after` is `before` with the transfers up to
/// that one, which is the last that the device was asked for.
pub open spec fn failed_within(
    before: Seq<Transfer>,
    after: Seq<Transfer>,
    transfers: Seq<Transfer>,
) -> bool {
    exists|k: int| 1 <= k <= transfers.len() && after == before + #[trigger] transfers.take(k)
}

/// A failure within the transfers `step` that follow the transfers `sofar` is a failure
/// within any transfers that begin with both.
proof fn lemma_failed_within_extends(
    before: Seq<Transfer>,
    sofar: Seq<Transfer>,
    step: Seq<Transfer>,
    after: Seq<Transfer>,
    transfers: Seq<Transfer>,
)
    requires
        failed_within(before + sofar, after, step),
        sofar.len() + step.len() <= transfers.len(),
        transfers.take((sofar.len() + step.len()) as int) == sofar + step,
    ensures
        failed_within(before, after, transfers),
{
    let k = choose|k: int|
        1 <= k <= step.len() && after == (before + sofar) + #[trigger] step.take(k);
    let m = sofar.len() + k;
    assert(transfers.take(m) =~= transfers.take((sofar.len() + step.len()) as int).take(m));
    assert(transfers.take(m) =~= sofar + step.take(k));
    assert((before + sofar) + step.take(k) =~= before + transfers.take(m));
}

/// For a cursor on a block boundary and a length of whole blocks, the blocks times their
/// size give back the cursor and the length.
proof fn lemma_whole_blocks(size: int, cursor: int, len: int)
    requires
        size > 0,
        cursor >= 0,
        len >= 0,
        cursor % size == 0,
        len % size == 0,
    ensures
        (cursor / size) * size == cursor,
        (len / size) * size == len,
        (cursor / size + len / size) * size == cursor + len,
        cursor / size >= 0,
        len / size >= 0,
{
    lemma_fundamental_div_mod(cursor, size);
    lemma_fundamental_div_mod(len, size);
    assert((cursor / size) * size == cursor && (len / size) * size == len && (cursor / size + len
        / size) * size == cursor + len) by (nonlinear_arith)
        requires
            cursor == size * (cursor / size),
            len == size * (len / size),
    ;
    assert(cursor / size >= 0 && len / size >= 0) by (nonlinear_arith)
        requires
            size > 0,
            cursor >= 0,
            len >= 0,
            cursor == size * (cursor / size),
            len == size * (len / size),
    ;
}

/// Where block `b` lies next to the `count` blocks from `first` on.
proof fn lemma_block_in_range(size: int, first: int, count: int, b: int)
    requires
        size > 0,
        first >= 0,
        count >= 0,
        b >= 0,
    ensures
        first <= b < first + count ==> first * size <= b * size && (b + 1) * size <= (first
            + count) * size,
        b < first ==> (b + 1) * size <= first * size,
        b >= first + count ==> (first + count) * size <= b * size,
        b * size + size == (b + 1) * size,
{
    assert(first <= b < first + count ==> first * size <= b * size && (b + 1) * size <= (first
        + count) * size) by (nonlinear_arith)
        requires
            size > 0,
    ;
    assert(b < first ==> (b + 1) * size <= first * size) by (nonlinear_arith)
        requires
            size > 0,
    ;
    assert(b >= first + count ==> (first + count) * size <= b * size) by (nonlinear_arith)
        requires
            size > 0,
    ;
    assert(b * size + size == (b + 1) * size) by (nonlinear_arith);
}

/// The address at which `buf` starts in memory.
///
/// Wraps `<[u8]>::as_ptr`. Nothing is claimed of the address: it is the machine's choice.
#[verifier::external_body]
fn start_address(buf: &[u8]) -> (address: usize) {
    buf.as_ptr() as usize
}

} // verus!
