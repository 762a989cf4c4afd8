use vstd::prelude::*;
use crate::error::TagError;
use crate::layout::{block_address, data_blocks};

verus! {

/// What came back from the tag when a block was asked for.
#[derive(Clone, Copy, Debug)]
pub enum Fetched {
    /// The block's sixteen bytes.
    Block([u8; 16]),
    /// The tag rejected the key for this block, or left the field.
    AuthenticationFailed,
    /// The block was authenticated, but its bytes did not arrive.
    TransferFailed,
}

/// A reader as its contracts see it: the stream position of the current
/// block and the offset of the next byte in it.
pub struct ReaderView {
    pub block: int,
    pub offset: int,
}

impl ReaderView {
    /// Whether every usable block has been read.
    pub open spec fn at_end(self) -> bool {
        self.block == 9
    }

    /// How many bytes a read into `requested` bytes of room takes from the
    /// current block.
    pub open spec fn take(self, requested: int) -> int {
        if requested <= 16 - self.offset {
            requested
        } else {
            16 - self.offset
        }
    }

    /// The cursor after such a read: the offset moves on, and on reaching
    /// the end of the block it moves to the start of the next one.
    pub open spec fn advanced(self, requested: int) -> ReaderView {
        if self.at_end() {
            self
        } else if self.offset + self.take(requested) == 16 {
            ReaderView { block: self.block + 1, offset: 0 }
        } else {
            ReaderView { block: self.block, offset: self.offset + self.take(requested) }
        }
    }
}

/// Sequential read stream over the usable blocks of one tag.
#[derive(Clone, Copy, Debug)]
pub struct TagReader {
    pub current_block: u8,
    pub current_pos_in_block: u8,
}

impl View for TagReader {
    type V = ReaderView;

    open spec fn view(&self) -> ReaderView {
        ReaderView { block: self.current_block as int, offset: self.current_pos_in_block as int }
    }
}

impl TagReader {
    /// The reader's invariant: a cursor within the usable blocks, at the
    /// start of a block once the last one is behind.
    pub open spec fn wf(&self) -> bool {
        &&& self.current_block <= 9
        &&& self.current_pos_in_block < 16
        &&& self.current_block == 9 ==> self.current_pos_in_block == 0
    }

    /// A reader at the first byte of the first usable block.
    pub fn new() -> (r: TagReader)
        ensures
            r.wf(),
            r@ == (ReaderView { block: 0, offset: 0 }),
    {
        TagReader { current_block: 0, current_pos_in_block: 0 }
    }

    /// Whether the reader holds its invariant.
    pub fn is_valid(&self) -> (valid: bool)
        ensures
            valid == self.wf(),
    {
        self.current_block <= 9 && self.current_pos_in_block < 16 && (self.current_block < 9
            || self.current_pos_in_block == 0)
    }

    /// The physical address of the block that the next read needs, to be
    /// authenticated and fetched afresh; `None` at the end of the stream.
    pub fn next_block(&self) -> (address: Option<u8>)
        requires
            self.wf(),
        ensures
            self@.at_end() ==> address.is_none(),
            !self@.at_end() ==> address == Some(data_blocks()[self@.block]),
    {
        match block_address(self.current_block) {
            Ok(address) => Some(address),
            Err(_) => None,
        }
    }

    /// Copies bytes of the current block, as it was just fetched, into the
    /// front of `buf`, and moves the cursor on.
    ///
    /// At the end of the stream it reads nothing and returns zero, however
    /// often it is called and whatever `fetched` holds. A failed fetch is
    /// an error and leaves cursor and `buf` as they were.
    pub fn read(&mut self, fetched: &Fetched, buf: &mut [u8]) -> (r: Result<usize, TagError>)
        requires
            old(self).wf(),
        ensures
            final(self).wf(),
            final(buf)@.len() == old(buf)@.len(),
            old(self)@.at_end() ==> r == Ok::<usize, TagError>(0) && *final(self) == *old(self)
                && final(buf)@ == old(buf)@,
            !old(self)@.at_end() ==> match *fetched {
                Fetched::AuthenticationFailed => r == Err::<usize, TagError>(
                    TagError::Authentication,
                ) && *final(self) == *old(self) && final(buf)@ == old(buf)@,
                Fetched::TransferFailed => r == Err::<usize, TagError>(TagError::Io)
                    && *final(self) == *old(self) && final(buf)@ == old(buf)@,
                Fetched::Block(data) => {
                    let n = old(self)@.take(old(buf)@.len() as int);
                    &&& r == Ok::<usize, TagError>(n as usize)
                    &&& final(self)@ == old(self)@.advanced(old(buf)@.len() as int)
                    &&& final(buf)@ == data@.subrange(old(self)@.offset, old(self)@.offset + n)
                        + old(buf)@.subrange(n, old(buf)@.len() as int)
                },
            },
    {
        if self.current_block >= 9 {
            return Ok(0);
        }
        match fetched {
            Fetched::AuthenticationFailed => Err(TagError::Authentication),
            Fetched::TransferFailed => Err(TagError::Io),
            Fetched::Block(data) => {
                let offset = self.current_pos_in_block as usize;
                let room = 16 - offset;
                let len = buf.len();
                let n = if len < room {
                    len
                } else {
                    room
                };
                let mut done: usize = 0;
                while done < n
                    invariant
                        done <= n <= len,
                        len == buf@.len() == old(buf)@.len(),
                        offset + n <= 16,
                        forall|i: int| 0 <= i < done ==> #[trigger] buf@[i] == data@[offset + i],
                        forall|i: int| done <= i < len ==> #[trigger] buf@[i] == old(buf)@[i],
                    decreases n - done,
                {
                    buf[done] = data[offset + done];
                    done += 1;
                }
                assert(buf@ =~= data@.subrange(offset as int, offset + n) + old(buf)@.subrange(
                    n as int,
                    len as int,
                ));
                if offset + n == 16 {
                    self.current_pos_in_block = 0;
                    self.current_block += 1;
                } else {
                    self.current_pos_in_block = (offset + n) as u8;
                }
                Ok(n)
            },
        }
    }
}

} // verus!
