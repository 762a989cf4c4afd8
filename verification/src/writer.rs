use vstd::prelude::*;
use crate::error::TagError;
use crate::layout::{block_address, data_blocks};

verus! {

/// One block to commit: authenticate `address`, then write `data` to it.
#[derive(Clone, Copy, Debug)]
pub struct BlockWrite {
    pub address: u8,
    pub data: [u8; 16],
}

/// What a list of commits says: each block's address and its sixteen bytes.
pub open spec fn commit_log(commits: Seq<BlockWrite>) -> Seq<(u8, Seq<u8>)> {
    Seq::new(commits.len(), |i: int| (commits[i].address, commits[i].data@))
}

/// `bytes` followed by zeros up to a full block.
pub open spec fn zero_padded(bytes: Seq<u8>) -> Seq<u8> {
    Seq::new(
        16,
        |i: int|
            if i < bytes.len() {
                bytes[i]
            } else {
                0u8
            },
    )
}

/// The first `count` sixteen-byte chunks of `bytes`, addressed to the usable
/// blocks from stream position `first` on.
pub open spec fn full_blocks(first: int, bytes: Seq<u8>, count: int) -> Seq<(u8, Seq<u8>)> {
    Seq::new(
        count as nat,
        |i: int| (data_blocks()[first + i], bytes.subrange(16 * i, 16 * i + 16)),
    )
}

/// A writer as its contracts see it: the stream position of the next block
/// and the bytes staged for it.
pub struct WriterView {
    pub block: int,
    pub staged: Seq<u8>,
}

impl WriterView {
    /// Bytes of the tag that the writer has claimed, staged ones included.
    pub open spec fn used(self) -> int {
        16 * self.block + self.staged.len()
    }

    /// Whether `buf` still fits on the tag behind what was written before.
    pub open spec fn fits(self, buf: Seq<u8>) -> bool {
        self.used() + buf.len() <= 144
    }

    /// How many blocks a write of `buf` commits: every chunk that fills up,
    /// as long as usable blocks are left.
    pub open spec fn write_count(self, buf: Seq<u8>) -> int {
        let filled = (self.staged.len() + buf.len()) as int / 16;
        if filled <= 9 - self.block {
            filled
        } else {
            9 - self.block
        }
    }

    /// The blocks that a write of `buf` commits.
    pub open spec fn write_log(self, buf: Seq<u8>) -> Seq<(u8, Seq<u8>)> {
        full_blocks(self.block, self.staged + buf, self.write_count(buf))
    }

    /// The writer after a write of `buf`. Where `buf` does not fit, the
    /// writer ends at the last block with nothing staged.
    pub open spec fn written(self, buf: Seq<u8>) -> WriterView {
        let total = self.staged + buf;
        let count = self.write_count(buf);
        WriterView {
            block: self.block + count,
            staged: if self.fits(buf) {
                total.subrange(16 * count, total.len() as int)
            } else {
                Seq::empty()
            },
        }
    }

    /// The blocks that a flush commits: the staged bytes, zero-padded, if
    /// there are any.
    pub open spec fn flush_log(self) -> Seq<(u8, Seq<u8>)> {
        if self.staged.len() > 0 {
            seq![(data_blocks()[self.block], zero_padded(self.staged))]
        } else {
            Seq::empty()
        }
    }

    /// The writer after a flush.
    pub open spec fn flushed(self) -> WriterView {
        WriterView {
            block: if self.staged.len() > 0 {
                self.block + 1
            } else {
                self.block
            },
            staged: Seq::empty(),
        }
    }
}

/// Sequential buffered write stream over the usable blocks of one tag.
///
/// Bytes are staged until sixteen are together; only then, or on `flush`,
/// a block is handed out for commit.
#[derive(Clone, Copy, Debug)]
pub struct TagWriter {
    pub current_block: u8,
    pub buffered_data: [u8; 16],
    pub current_pos_in_buffered_data: u8,
}

impl View for TagWriter {
    type V = WriterView;

    open spec fn view(&self) -> WriterView {
        WriterView {
            block: self.current_block as int,
            staged: self.buffered_data@.subrange(0, self.current_pos_in_buffered_data as int),
        }
    }
}

/// Copies `count` bytes of `src`, from `from` on, into `block` at `at`.
fn copy_into(block: &mut [u8; 16], at: usize, src: &[u8], from: usize, count: usize)
    requires
        at + count <= 16,
        from + count <= src@.len() <= usize::MAX,
    ensures
        forall|i: int|
            0 <= i < 16 ==> #[trigger] final(block)@[i] == if at <= i < at + count {
                src@[from + i - at]
            } else {
                old(block)@[i]
            },
{
    let mut done: usize = 0;
    while done < count
        invariant
            done <= count,
            at + count <= 16,
            from + count <= src@.len() <= usize::MAX,
            forall|i: int|
                0 <= i < 16 ==> #[trigger] block@[i] == if at <= i < at + done {
                    src@[from + i - at]
                } else {
                    old(block)@[i]
                },
        decreases count - done,
    {
        block[at + done] = src[from + done];
        done += 1;
    }
}

impl TagWriter {
    /// The writer's invariant: a position within the usable blocks, a
    /// staging buffer that is never full, and nothing staged once the last
    /// block is behind.
    pub open spec fn wf(&self) -> bool {
        &&& self.current_block <= 9
        &&& self.current_pos_in_buffered_data < 16
        &&& self.current_block == 9 ==> self.current_pos_in_buffered_data == 0
    }

    /// A writer at the first usable block, with nothing staged and a
    /// staging buffer of zeros.
    pub fn new() -> (w: TagWriter)
        ensures
            w.wf(),
            w.current_block == 0,
            w.current_pos_in_buffered_data == 0,
            forall|i: int| 0 <= i < 16 ==> w.buffered_data@[i] == 0u8,
            w@.block == 0,
            w@.staged == Seq::<u8>::empty(),
            w@.used() == 0,
    {
        let w = TagWriter {
            current_block: 0,
            buffered_data: [0u8; 16],
            current_pos_in_buffered_data: 0,
        };
        assert(w@.staged =~= Seq::<u8>::empty());
        w
    }

    /// Whether the writer holds its invariant.
    pub fn is_valid(&self) -> (valid: bool)
        ensures
            valid == self.wf(),
    {
        self.current_block <= 9 && self.current_pos_in_buffered_data < 16 && (self.current_block
            < 9 || self.current_pos_in_buffered_data == 0)
    }

    /// Hands out `data` as the next block and moves on.
    fn commit(&mut self, data: [u8; 16], commits: &mut Vec<BlockWrite>) -> (r: Result<
        (),
        TagError,
    >)
        requires
            old(self).current_block <= 9,
        ensures
            final(self).buffered_data == old(self).buffered_data,
            final(self).current_pos_in_buffered_data == old(self).current_pos_in_buffered_data,
            old(self).current_block < 9 ==> r.is_ok()
                && final(self).current_block == old(self).current_block + 1
                && commit_log(final(commits)@) == commit_log(old(commits)@).push(
                (data_blocks()[old(self).current_block as int], data@),
            ),
            old(self).current_block == 9 ==> r == Err::<(), TagError>(TagError::CapacityExceeded)
                && final(self).current_block == 9 && final(commits)@ == old(commits)@,
    {
        match block_address(self.current_block) {
            Ok(address) => {
                commits.push(BlockWrite { address, data });
                self.current_block += 1;
                assert(commit_log(commits@) =~= commit_log(old(commits)@).push((address, data@)));
                Ok(())
            },
            Err(e) => Err(e),
        }
    }

    /// Stages `buf`, handing out every block that fills up on the way.
    ///
    /// Bytes already staged are topped up first; full chunks of the rest are
    /// handed out directly, and a trailing partial chunk stays staged until
    /// the next write or `flush`. A write that does not fit on the tag hands
    /// out the blocks that are left, then fails: it never wraps round to the
    /// first block, and never takes back a block it handed out.
    pub fn write(&mut self, buf: &[u8], commits: &mut Vec<BlockWrite>) -> (r: Result<
        usize,
        TagError,
    >)
        requires
            old(self).wf(),
        ensures
            final(self).wf(),
            final(self)@ == old(self)@.written(buf@),
            commit_log(final(commits)@) == commit_log(old(commits)@) + old(self)@.write_log(buf@),
            old(self)@.fits(buf@) ==> r == Ok::<usize, TagError>(buf@.len() as usize)
                && final(self)@.used() == old(self)@.used() + buf@.len(),
            !old(self)@.fits(buf@) ==> r == Err::<usize, TagError>(TagError::CapacityExceeded),
    {
        let ghost before = self@;
        let ghost log0 = commit_log(commits@);
        let ghost total = before.staged + buf@;
        let len = buf.len();
        let mut taken: usize = 0;
        let pos = self.current_pos_in_buffered_data as usize;
        if pos > 0 {
            let room = 16 - pos;
            let n = if len < room {
                len
            } else {
                room
            };
            copy_into(&mut self.buffered_data, pos, buf, 0, n);
            assert(self.buffered_data@.subrange(0, (pos + n) as int) =~= total.subrange(
                0,
                (pos + n) as int,
            ));
            if pos + n < 16 {
                self.current_pos_in_buffered_data = (pos + n) as u8;
                assert(self@.staged =~= total);
                assert(commit_log(commits@) =~= log0 + before.write_log(buf@));
                return Ok(len);
            }
            let data = self.buffered_data;
            assert(data@ =~= total.subrange(0, 16));
            self.current_pos_in_buffered_data = 0;
            let _ = self.commit(data, commits);
            taken = n;
            assert(commit_log(commits@) =~= log0 + full_blocks(before.block, total, 1));
        } else {
            assert(total =~= buf@);
            assert(commit_log(commits@) =~= log0 + full_blocks(before.block, total, 0));
        }
        while len - taken >= 16
            invariant
                old(self).wf(),
                before == old(self)@,
                log0 == commit_log(old(commits)@),
                taken <= len == buf@.len(),
                total == before.staged + buf@,
                before.block + before.staged.len() / 16 <= 9,
                before.staged.len() < 16,
                (before.staged.len() + taken) % 16 == 0,
                self.current_pos_in_buffered_data == 0,
                self.current_block <= 9,
                self.current_block == before.block + (before.staged.len() + taken) / 16,
                commit_log(commits@) == log0 + full_blocks(
                    before.block,
                    total,
                    (before.staged.len() + taken) / 16,
                ),
            decreases buf@.len() - taken,
        {
            if self.current_block >= 9 {
                assert(!before.fits(buf@));
                assert(self@.staged =~= Seq::<u8>::empty());
                return Err(TagError::CapacityExceeded);
            }
            let mut data = [0u8; 16];
            copy_into(&mut data, 0, buf, taken, 16);
            let ghost done = (before.staged.len() + taken) / 16;
            assert(data@ =~= total.subrange(16 * done, 16 * done + 16));
            let _ = self.commit(data, commits);
            taken += 16;
            assert(commit_log(commits@) =~= log0 + full_blocks(before.block, total, done + 1));
        }
        let rest = len - taken;
        let ghost filled = (before.staged.len() + taken) / 16;
        assert(filled == (before.staged.len() + buf@.len()) / 16);
        if rest > 0 {
            if self.current_block >= 9 {
                assert(!before.fits(buf@));
                assert(self@.staged =~= Seq::<u8>::empty());
                return Err(TagError::CapacityExceeded);
            }
            copy_into(&mut self.buffered_data, 0, buf, taken, rest);
            self.current_pos_in_buffered_data = rest as u8;
            assert(self@.staged =~= total.subrange(16 * filled, total.len() as int));
        } else {
            assert(self@.staged =~= total.subrange(16 * filled, total.len() as int));
        }
        Ok(len)
    }

    /// Hands out the staged bytes as one zero-padded block, if there are
    /// any, and empties the staging buffer. With nothing staged it does
    /// nothing.
    pub fn flush(&mut self, commits: &mut Vec<BlockWrite>)
        requires
            old(self).wf(),
        ensures
            final(self).wf(),
            final(self)@ == old(self)@.flushed(),
            commit_log(final(commits)@) == commit_log(old(commits)@) + old(self)@.flush_log(),
    {
        let pos = self.current_pos_in_buffered_data as usize;
        if pos > 0 {
            let mut data = [0u8; 16];
            copy_into(&mut data, 0, self.buffered_data.as_slice(), 0, pos);
            assert(data@ =~= zero_padded(self@.staged));
            let _ = self.commit(data, commits);
            self.current_pos_in_buffered_data = 0;
            self.buffered_data = [0u8; 16];
            assert(self@.staged =~= Seq::<u8>::empty());
            assert(commit_log(commits@) =~= commit_log(old(commits)@) + old(self)@.flush_log());
        } else {
            assert(self@.staged =~= Seq::<u8>::empty());
            assert(commit_log(commits@) =~= commit_log(old(commits)@) + old(self)@.flush_log());
        }
    }
}

} // verus!
