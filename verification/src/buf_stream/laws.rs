//! What holds of a [`BufStream`] over several calls.

use crate::block_device_driver::{overwrite, BlockDevice};
use crate::buf_stream::{wrapped_offset, BufStream, BufStreamError};
use crate::io::SeekFrom;
use vstd::prelude::*;

verus! {

/// A call on a stream.
pub enum Op {
    /// A seek to the position.
    Seek(SeekFrom),
    /// A write of `data`, from a buffer that is `aligned` or not.
    Write { data: Seq<u8>, aligned: bool },
    /// A read of `len` bytes, into a buffer that is `aligned` or not.
    Read { len: nat, aligned: bool },
    /// A flush.
    Flush,
}

/// A store of bytes that is addressed byte by byte, with a cursor: what a stream stands for.
pub struct Oracle {
    pub bytes: Seq<u8>,
    pub cursor: u64,
}

impl Oracle {
    /// The oracle after `op`.
    pub open spec fn step(self, op: Op) -> Oracle {
        match op {
            Op::Seek(SeekFrom::Start(x)) => Oracle { bytes: self.bytes, cursor: x },
            Op::Seek(SeekFrom::Current(x)) => Oracle {
                bytes: self.bytes,
                cursor: wrapped_offset(self.cursor as int, x as int),
            },
            Op::Seek(SeekFrom::End(x)) => Oracle {
                bytes: self.bytes,
                cursor: wrapped_offset(self.bytes.len() as int, x as int),
            },
            Op::Write { data, aligned } => Oracle {
                bytes: overwrite(self.bytes, self.cursor as int, data),
                cursor: (self.cursor + data.len()) as u64,
            },
            Op::Read { len, aligned } => Oracle {
                bytes: self.bytes,
                cursor: (self.cursor + len) as u64,
            },
            Op::Flush => self,
        }
    }

    /// The oracle after all of `ops`, in order.
    pub open spec fn run(self, ops: Seq<Op>) -> Oracle
        decreases ops.len(),
    {
        if ops.len() == 0 {
            self
        } else {
            self.run(ops.drop_last()).step(ops.last())
        }
    }
}

/// The oracle that holds what the stream `s` shows.
pub open spec fn oracle_of<T: BlockDevice<SIZE>, const SIZE: usize>(s: BufStream<T, SIZE>) -> Oracle {
    Oracle { bytes: s@, cursor: s.cursor() }
}

/// The call `op` succeeded, and took the stream from `pre` to `post`.
pub open spec fn performs<T: BlockDevice<SIZE>, const SIZE: usize>(
    pre: BufStream<T, SIZE>,
    op: Op,
    post: BufStream<T, SIZE>,
) -> bool {
    match op {
        Op::Seek(pos) => exists|r: Result<u64, BufStreamError<T::Error>>|
            r is Ok && #[trigger] BufStream::seek_outcome(pre, pos, post, r),
        Op::Write { data, aligned } => exists|r: Result<usize, BufStreamError<T::Error>>|
            r is Ok && #[trigger] BufStream::write_outcome(pre, data, aligned, post, r),
        Op::Read { len, aligned } => exists|out: Seq<u8>, r: Result<usize, BufStreamError<T::Error>>|
            out.len() == len && r is Ok && #[trigger] BufStream::read_outcome(
                pre,
                aligned,
                post,
                out,
                r,
            ),
        Op::Flush => exists|r: Result<(), BufStreamError<T::Error>>|
            r is Ok && #[trigger] BufStream::flush_outcome(pre, post, r),
    }
}

/// One successful call does to what the stream shows what it does to the oracle.
pub proof fn lemma_step_matches_oracle<T: BlockDevice<SIZE>, const SIZE: usize>(
    pre: BufStream<T, SIZE>,
    op: Op,
    post: BufStream<T, SIZE>,
)
    requires
        pre.wf(),
        performs(pre, op, post),
    ensures
        post.wf(),
        oracle_of(post) == oracle_of(pre).step(op),
        op is Flush ==> post.inner().contents() == post@,
{
    if let Op::Write { data, aligned } = op {
        if data.len() == 0 {
            // a write of no bytes leaves the bytes as they are
            assert(overwrite(pre@, pre.cursor() as int, data) =~= pre@);
        }
    }
}

/// A stream and a byte-addressable oracle that start with the same bytes and the same
/// cursor still agree after any sequence of successful calls; and when the last call was a
/// flush, the device itself holds the oracle's bytes.
pub proof fn lemma_matches_oracle<T: BlockDevice<SIZE>, const SIZE: usize>(
    states: Seq<BufStream<T, SIZE>>,
    ops: Seq<Op>,
)
    requires
        states.len() == ops.len() + 1,
        states[0].wf(),
        forall|i: int| 0 <= i < ops.len() ==> performs(states[i], #[trigger] ops[i], states[i + 1]),
    ensures
        states.last().wf(),
        oracle_of(states.last()) == oracle_of(states[0]).run(ops),
        ops.len() > 0 && ops.last() is Flush ==> states.last().inner().contents() == oracle_of(
            states[0],
        ).run(ops).bytes,
    decreases ops.len(),
{
    if ops.len() > 0 {
        let k = ops.len() - 1;
        lemma_matches_oracle(states.drop_last(), ops.drop_last());
        assert(states.drop_last().last() == states[k]);
        assert(performs(states[k], ops[k], states[k + 1]));
        lemma_step_matches_oracle(states[k], ops[k], states[k + 1]);
    }
}

/// Bytes that were written and flushed are read back: after a write of `data`, a flush and
/// a seek back to where the write began, a read of as many bytes gives `data`, whatever
/// path the write and the read took.
pub proof fn lemma_round_trip<T: BlockDevice<SIZE>, const SIZE: usize>(
    s0: BufStream<T, SIZE>,
    data: Seq<u8>,
    write_aligned: bool,
    s1: BufStream<T, SIZE>,
    s2: BufStream<T, SIZE>,
    s3: BufStream<T, SIZE>,
    read_aligned: bool,
    s4: BufStream<T, SIZE>,
    out: Seq<u8>,
)
    requires
        s0.wf(),
        performs(s0, Op::Write { data, aligned: write_aligned }, s1),
        performs(s1, Op::Flush, s2),
        performs(s2, Op::Seek(SeekFrom::Start(s0.cursor())), s3),
        out.len() == data.len(),
        exists|r: Result<usize, BufStreamError<T::Error>>|
            r is Ok && #[trigger] BufStream::read_outcome(s3, read_aligned, s4, out, r),
    ensures
        out == data,
{
    let c = s0.cursor() as int;
    if data.len() == 0 {
        assert(out =~= data);
    } else {
        assert(s1@ == overwrite(s0@, c, data));
        assert(s3@ == s1@);
        assert(s3.inner().contents() == s1@);
        assert(s1@.subrange(c, c + data.len()) =~= data);
    }
}

/// A flush right after a flush that succeeded does nothing: it succeeds, asks the device
/// for no transfer, and leaves device, cache and cursor as the first one left them.
pub proof fn lemma_flush_idempotent<T: BlockDevice<SIZE>, const SIZE: usize>(
    s0: BufStream<T, SIZE>,
    s1: BufStream<T, SIZE>,
    r1: Result<(), BufStreamError<T::Error>>,
    s2: BufStream<T, SIZE>,
    r2: Result<(), BufStreamError<T::Error>>,
)
    requires
        s0.wf(),
        BufStream::flush_outcome(s0, s1, r1),
        r1 is Ok,
        BufStream::flush_outcome(s1, s2, r2),
    ensures
        r2 is Ok,
        s2.inner() == s1.inner(),
        s2.same_cache(&s1),
        s2.cursor() == s1.cursor(),
        s2@ == s1@,
{
}

} // verus!
