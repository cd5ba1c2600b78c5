//! A window on a byte stream, with a cursor of its own.

use crate::io::{ErrorKind, SeekFrom};
use vstd::prelude::*;

verus! {

/// What can go wrong in a [`StreamSlice`].
#[derive(Debug)]
#[non_exhaustive]
pub enum StreamSliceError<T> {
    /// A seek to this offset: it lies before the window or behind its end.
    InvalidSeek(i64),
    /// Bytes were to be written, and none could be.
    WriteZero,
    /// An error of the stream underneath.
    Other(T),
}

impl<T> StreamSliceError<T> {
    /// The class of the error: a seek out of the window is an invalid input, all else is
    /// [`ErrorKind::Other`].
    pub fn kind(&self) -> (k: ErrorKind)
        ensures
            k == (if *self is InvalidSeek {
                ErrorKind::InvalidInput
            } else {
                ErrorKind::Other
            }),
    {
        match self {
            StreamSliceError::InvalidSeek(_) => ErrorKind::InvalidInput,
            StreamSliceError::Other(_) | StreamSliceError::WriteZero => ErrorKind::Other,
        }
    }
}

impl<T> From<T> for StreamSliceError<T> {
    fn from(e: T) -> (r: Self) {
        StreamSliceError::Other(e)
    }
}

impl<T> vstd::std_specs::convert::FromSpecImpl<T> for StreamSliceError<T> {
    open spec fn obeys_from_spec() -> bool {
        true
    }

    open spec fn from_spec(e: T) -> Self {
        StreamSliceError::Other(e)
    }
}

/// The offset in the window that a seek to `pos` asks for, with the cursor at `cursor` in a
/// window of `size` bytes. It may lie outside the window.
pub open spec fn seek_candidate(pos: SeekFrom, cursor: u64, size: u64) -> int {
    match pos {
        SeekFrom::Start(x) => x as int,
        SeekFrom::Current(x) => cursor + x,
        SeekFrom::End(x) => size + x,
    }
}

/// An offset as an error reports it: in 64 bits with a sign, so that offsets from `2^63` on
/// come out negative.
pub open spec fn reported_offset(offset: int) -> i64 {
    if offset > i64::MAX {
        (offset - 0x1_0000_0000_0000_0000) as i64
    } else {
        offset as i64
    }
}

/// Access to a limited segment of a stream: the bytes from `start` up to `start + size`
/// appear as a stream of `size` bytes, with a cursor that never leaves them.
///
/// The slice owns the stream and decides; it does not call it. Each operation has a
/// function that says what to ask of the stream (how many bytes, which position), and one
/// that takes what the stream answered. As long as the stream is asked just that, it
/// stands at [`StreamSlice::position`] between calls.
pub struct StreamSlice<T> {
    inner: T,
    start_offset: u64,
    current_offset: u64,
    size: u64,
}

impl<T> StreamSlice<T> {
    /// The stream underneath.
    pub closed spec fn inner(&self) -> T {
        self.inner
    }

    /// The offset in the stream of the first byte of the window.
    pub closed spec fn start(&self) -> u64 {
        self.start_offset
    }

    /// The number of bytes in the window.
    pub closed spec fn size(&self) -> u64 {
        self.size
    }

    /// The offset of the cursor in the window.
    pub closed spec fn cursor(&self) -> u64 {
        self.current_offset
    }

    /// The cursor lies in the window or at its end, and the window ends at an offset of
    /// 64 bits.
    pub open spec fn wf(&self) -> bool {
        &&& self.cursor() <= self.size()
        &&& self.start() + self.size() <= u64::MAX
    }

    /// The offset in the stream underneath at which the cursor stands.
    pub open spec fn spec_position(&self) -> int {
        self.start() + self.cursor()
    }

    /// Creates new `StreamSlice` from inner stream and offset range.
    ///
    /// `start_offset` is inclusive offset of the first accessible byte.
    /// `end_offset` is exclusive offset of the first non-accessible byte.
    /// `start_offset` must be lower or equal to `end_offset`. The cursor is at the start of
    /// the window, where the stream has to be brought by a seek to `start_offset`.
    pub fn new(inner: T, start_offset: u64, end_offset: u64) -> (s: Self)
        requires
            start_offset <= end_offset,
        ensures
            s.wf(),
            s.inner() == inner,
            s.start() == start_offset,
            s.size() == end_offset - start_offset,
            s.cursor() == 0,
    {
        let size = end_offset - start_offset;
        StreamSlice { start_offset, size, inner, current_offset: 0 }
    }

    /// Returns inner object
    pub fn into_inner(self) -> (inner: T)
        ensures
            inner == self.inner(),
    {
        self.inner
    }

    /// The stream underneath, for the transfer that was decided.
    pub fn inner_mut(&mut self) -> (inner: &mut T)
        ensures
            *inner == old(self).inner(),
            final(self).inner() == *final(inner),
            final(self).start() == old(self).start(),
            final(self).size() == old(self).size(),
            final(self).cursor() == old(self).cursor(),
    {
        &mut self.inner
    }

    /// The offset in the stream underneath at which the cursor stands.
    pub fn position(&self) -> (p: u64)
        requires
            self.wf(),
        ensures
            p == self.spec_position(),
    {
        self.start_offset + self.current_offset
    }

    /// Decides a read into a buffer of `len` bytes: how many bytes to ask of the stream
    /// underneath. That is `len`, or what is left of the window where that is less.
    pub fn begin_read(&self, len: usize) -> (n: usize)
        requires
            self.wf(),
        ensures
            n == vstd::math::min(self.size() - self.cursor(), len as int),
    {
        let remaining = self.size - self.current_offset;
        if remaining < len as u64 {
            remaining as usize
        } else {
            len
        }
    }

    /// Takes the number of bytes that the stream underneath has read, which is the result
    /// of the read, and moves the cursor behind them. The number may be less than was asked
    /// for, and is 0 at the end of the window.
    pub fn end_read(&mut self, count: usize) -> (n: usize)
        requires
            old(self).wf(),
            count <= old(self).size() - old(self).cursor(),
        ensures
            n == count,
            Self::performed(*old(self), Call::Read { count }, *final(self)),
    {
        self.current_offset += count as u64;
        count
    }

    /// Decides a write of a buffer of `len` bytes: how many of its bytes to hand to the
    /// stream underneath. That is `len`, or what is left of the window where that is less:
    /// a write over the end of the window is cut short. Fails with `WriteZero` when there
    /// are bytes to write and the window has no room for any.
    pub fn begin_write<E>(&self, len: usize) -> (r: Result<usize, StreamSliceError<E>>)
        requires
            self.wf(),
        ensures
            r is Err <==> len > 0 && self.cursor() == self.size(),
            match r {
                Ok(n) => n == vstd::math::min(self.size() - self.cursor(), len as int),
                Err(e) => e is WriteZero,
            },
    {
        let n = self.begin_read(len);
        if n == 0 && len > 0 {
            Err(StreamSliceError::WriteZero)
        } else {
            Ok(n)
        }
    }

    /// Takes the number of bytes that the stream underneath has written of the `requested`
    /// bytes it was handed, and moves the cursor behind them. Fails with `WriteZero` when
    /// it was handed bytes and wrote none.
    pub fn end_write<E>(&mut self, requested: usize, count: usize) -> (r: Result<
        usize,
        StreamSliceError<E>,
    >)
        requires
            old(self).wf(),
            requested <= old(self).size() - old(self).cursor(),
            count <= requested,
        ensures
            r is Err <==> requested > 0 && count == 0,
            match r {
                Ok(n) => n == count,
                Err(e) => e is WriteZero,
            },
            Self::performed(*old(self), Call::Write { count }, *final(self)),
    {
        if requested > 0 && count == 0 {
            return Err(StreamSliceError::WriteZero);
        }
        self.current_offset += count as u64;
        Ok(count)
    }

    /// Decides a seek: the offset in the stream underneath to seek to, or `InvalidSeek`
    /// with the offset asked for when that lies before the window or behind its end.
    pub fn begin_seek<E>(&self, pos: SeekFrom) -> (r: Result<u64, StreamSliceError<E>>)
        requires
            self.wf(),
        ensures
            ({
                let offset = seek_candidate(pos, self.cursor(), self.size());
                if 0 <= offset <= self.size() {
                    r == Ok::<u64, StreamSliceError<E>>((self.start() + offset) as u64)
                } else {
                    r == Err::<u64, StreamSliceError<E>>(
                        StreamSliceError::InvalidSeek(reported_offset(offset)),
                    )
                }
            }),
    {
        let new_offset: i128 = match pos {
            SeekFrom::Current(x) => self.current_offset as i128 + x as i128,
            SeekFrom::Start(x) => x as i128,
            SeekFrom::End(x) => self.size as i128 + x as i128,
        };
        if new_offset < 0 || new_offset > self.size as i128 {
            let reported: i64 = if new_offset > i64::MAX as i128 {
                (new_offset - 0x1_0000_0000_0000_0000i128) as i64
            } else {
                new_offset as i64
            };
            Err(StreamSliceError::InvalidSeek(reported))
        } else {
            Ok(self.start_offset + new_offset as u64)
        }
    }

    /// Takes the offset that the stream underneath was brought to, a result of
    /// [`StreamSlice::begin_seek`], and puts the cursor there. Returns the cursor.
    pub fn end_seek(&mut self, target: u64) -> (offset: u64)
        requires
            old(self).wf(),
            old(self).start() <= target <= old(self).start() + old(self).size(),
        ensures
            offset == target - old(self).start(),
            Self::performed(*old(self), Call::Seek { target }, *final(self)),
    {
        self.current_offset = target - self.start_offset;
        self.current_offset
    }

    /// What a call that has succeeded makes of the slice `pre`: the slice is as it was, but
    /// for the cursor, which has moved with the stream.
    pub open spec fn performed(pre: Self, call: Call, post: Self) -> bool {
        &&& post.wf()
        &&& post.inner() == pre.inner()
        &&& post.start() == pre.start()
        &&& post.size() == pre.size()
        &&& match call {
            Call::Read { count } => post.cursor() == pre.cursor() + count,
            Call::Write { count } => post.cursor() == pre.cursor() + count,
            Call::Seek { target } => post.cursor() == target - pre.start(),
        }
    }
}

/// A call on a slice that has succeeded, by what the stream underneath did: it read or
/// wrote `count` bytes, or went to the offset `target`.
pub enum Call {
    /// [`StreamSlice::begin_read`] and [`StreamSlice::end_read`].
    Read { count: usize },
    /// [`StreamSlice::begin_write`] and [`StreamSlice::end_write`].
    Write { count: usize },
    /// [`StreamSlice::begin_seek`] and [`StreamSlice::end_seek`].
    Seek { target: u64 },
}

/// Where a stream stands after a call, if it stood at `position` before: behind the bytes
/// that it read or wrote, or where it went.
pub open spec fn stream_after(position: int, call: Call) -> int {
    match call {
        Call::Read { count } => position + count,
        Call::Write { count } => position + count,
        Call::Seek { target } => target as int,
    }
}

/// After every call that succeeds, the cursor lies in the window or at its end, and the
/// stream underneath stands where the cursor is: at the start of the window plus the
/// cursor, if it stood there before the call.
pub proof fn lemma_stream_follows_cursor<T>(
    pre: StreamSlice<T>,
    call: Call,
    post: StreamSlice<T>,
    position: int,
)
    requires
        pre.wf(),
        position == pre.start() + pre.cursor(),
        StreamSlice::performed(pre, call, post),
    ensures
        0 <= post.cursor() <= post.size(),
        stream_after(position, call) == post.start() + post.cursor(),
{
}

} // verus!
