use vstd::prelude::*;
use vstd::slice::slice_subrange;
use vstd::utf8::encode_utf8;
use crate::codec::{
    decode_string, frame_wants_more, framed, lemma_unframed_prefix, unframed, wants_more,
    SCRATCH_LEN,
};
use crate::error::TagError;
use crate::image::{lemma_round_trip, lemma_stored_stream, overlaid, put, stored};
use crate::layout::{block_index, default_key, index_of_address, lemma_address_index};
use crate::reader::{Fetched, TagReader};
use crate::session::{Command, Outcome, Phase, ReadSession, Step, WriteSession};
use crate::writer::{commit_log, BlockWrite, TagWriter, WriterView};

verus! {

/// A tag in memory: the nine usable blocks and nothing else. It accepts
/// every key, and refuses every address that is not a usable block.
pub struct SimulatedTag {
    pub blocks: Vec<[u8; 16]>,
}

impl SimulatedTag {
    /// The tag's invariant: exactly the nine usable blocks.
    pub open spec fn wf(&self) -> bool {
        self.blocks@.len() == 9
    }

    /// The usable bytes, block after block in stream order.
    pub open spec fn image(&self) -> Seq<u8> {
        Seq::new(144, |j: int| self.blocks@[j / 16]@[j % 16])
    }

    /// A tag whose usable bytes are all zero.
    pub fn new() -> (tag: SimulatedTag)
        ensures
            tag.wf(),
            tag.image() == Seq::new(144, |j: int| 0u8),
    {
        let mut blocks: Vec<[u8; 16]> = Vec::new();
        let mut n: usize = 0;
        while n < 9
            invariant
                n <= 9,
                blocks@.len() == n,
                forall|i: int, k: int| 0 <= i < n && 0 <= k < 16 ==> #[trigger] blocks@[i]@[k] == 0u8,
            decreases 9 - n,
        {
            blocks.push([0u8; 16]);
            n += 1;
        }
        let tag = SimulatedTag { blocks };
        assert(tag.image() =~= Seq::new(144, |j: int| 0u8));
        tag
    }

    /// Whether the tag holds its invariant.
    pub fn is_valid(&self) -> (valid: bool)
        ensures
            valid == self.wf(),
    {
        self.blocks.len() == 9
    }

    /// Fetches the block at a physical address.
    pub fn fetch(&self, address: u8) -> (fetched: Fetched)
        requires
            self.wf(),
        ensures
            match index_of_address(address) {
                Some(index) => fetched matches Fetched::Block(data) && data@
                    == self.image().subrange(16 * index, 16 * index + 16),
                None => fetched matches Fetched::TransferFailed,
            },
    {
        match block_index(address) {
            Some(index) => {
                let data = self.blocks[index as usize];
                assert(data@ =~= self.image().subrange(16 * index, 16 * index + 16)) by {
                    assert forall|k: int| 0 <= k < 16 implies data@[k] == self.image()[16 * index
                        + k] by {
                        assert((16 * index + k) / 16 == index as int);
                        assert((16 * index + k) % 16 == k);
                    }
                }
                Fetched::Block(data)
            },
            None => Fetched::TransferFailed,
        }
    }

    /// Stores one block. An address that is not a usable block is refused
    /// and changes nothing.
    pub fn commit(&mut self, write: &BlockWrite) -> (r: Result<(), TagError>)
        requires
            old(self).wf(),
        ensures
            final(self).wf(),
            final(self).image() == put(old(self).image(), write.address, write.data@),
            r.is_ok() == index_of_address(write.address).is_some(),
            r matches Err(e) ==> e == TagError::Io,
    {
        match block_index(write.address) {
            Some(index) => {
                self.blocks[index as usize] = write.data;
                assert(self.image() =~= put(old(self).image(), write.address, write.data@));
                Ok(())
            },
            None => Err(TagError::Io),
        }
    }

    /// Performs one command of a session, as a tag in the field would.
    pub fn perform(&mut self, command: &Command) -> (outcome: Outcome)
        requires
            old(self).wf(),
        ensures
            final(self).wf(),
            match *command {
                Command::Authenticate { address, key } => final(self).image() == old(self).image()
                    && (if index_of_address(address).is_some() {
                    outcome is Done
                } else {
                    outcome is Failed
                }),
                Command::Fetch { address } => final(self).image() == old(self).image() && (
                match index_of_address(address) {
                    Some(index) => outcome matches Outcome::Block(data) && data@ == old(self).image().subrange(16 * index, 16 * index + 16),
                    None => outcome is Failed,
                }),
                Command::Commit { address, data } => final(self).image() == put(
                    old(self).image(),
                    address,
                    data@,
                ) && (if index_of_address(address).is_some() {
                    outcome is Done
                } else {
                    outcome is Failed
                }),
                Command::Halt | Command::StopCrypto => final(self).image() == old(self).image()
                    && outcome is Done,
            },
    {
        match command {
            Command::Authenticate { address, key } => {
                match block_index(*address) {
                    Some(_) => Outcome::Done,
                    None => Outcome::Failed,
                }
            },
            Command::Fetch { address } => {
                match self.fetch(*address) {
                    Fetched::Block(data) => Outcome::Block(data),
                    _ => Outcome::Failed,
                }
            },
            Command::Commit { address, data } => {
                match self.commit(&BlockWrite { address: *address, data: *data }) {
                    Ok(()) => Outcome::Done,
                    Err(_) => Outcome::Failed,
                }
            },
            Command::Halt => Outcome::Done,
            Command::StopCrypto => Outcome::Done,
        }
    }

    /// Serves a fresh read session to its end: performs each command it
    /// asks for and hands back the outcome.
    ///
    /// The session reads what `read_string` reads, and leaves the tag's
    /// bytes as they were.
    pub fn serve_read(&mut self, session: ReadSession) -> (r: Result<String, TagError>)
        requires
            old(self).wf(),
            session.wf(),
            session.phase == Phase::Ready,
            session.failure.is_none(),
            session.bytes@.len() == 0,
            session.reader@.block == 0,
            session.reader@.offset == 0,
        ensures
            final(self).wf(),
            final(self).image() == old(self).image(),
            r.is_ok() == unframed(old(self).image(), SCRATCH_LEN as nat).is_some(),
            r matches Ok(s) ==> s@ == unframed(old(self).image(), SCRATCH_LEN as nat).unwrap(),
            r matches Err(e) ==> e == TagError::Decode,
    {
        let mut session = session;
        let mut outcome = Outcome::Done;
        let ghost image = self.image();
        assert(session.bytes@ =~= image.subrange(0, 0));
        loop
            invariant
                self.wf(),
                self.image() == image,
                image == old(self).image(),
                session.wf(),
                session.failure.is_none(),
                session.phase != Phase::Finished,
                session.reader@.offset == 0,
                session.bytes@ == image.subrange(0, 16 * session.reader@.block),
                session.phase == Phase::Ready ==> session.reader@.block == 0,
                session.phase == Phase::Authenticating ==> outcome is Done,
                session.phase == Phase::Transferring ==> (outcome matches Outcome::Block(data)
                    && data@ == image.subrange(
                    16 * session.reader@.block,
                    16 * session.reader@.block + 16,
                )),
                session.phase == Phase::Halting || session.phase == Phase::Stopping ==> unframed(
                    session.bytes@,
                    SCRATCH_LEN as nat,
                ) == unframed(image, SCRATCH_LEN as nat),
            decreases
                    match session.phase {
                        Phase::Ready => 50int,
                        Phase::Authenticating => 5 + 2 * (9 - session.reader@.block),
                        Phase::Transferring => 4 + 2 * (9 - session.reader@.block),
                        Phase::Halting => 2int,
                        Phase::Stopping => 1int,
                        Phase::Finished => 0int,
                    },
        {
            let ghost before = session;
            let step = session.advance(outcome);
            proof {
                if session.phase == Phase::Halting && before.phase != Phase::Halting {
                    let cut = 16 * session.reader@.block;
                    if session.reader@.at_end() {
                        assert(image.subrange(0, cut) =~= image);
                    } else {
                        lemma_unframed_prefix(image, cut, SCRATCH_LEN as nat);
                    }
                }
                if before.phase == Phase::Transferring {
                    assert(session.bytes@ =~= image.subrange(0, 16 * session.reader@.block));
                }
            }
            match step {
                Step::Perform(command) => {
                    proof {
                        if session.reader@.block < 9 {
                            lemma_address_index(session.reader@.block);
                        }
                        assert(session.issued@.last() == command);
                    }
                    outcome = self.perform(&command);
                },
                Step::Finished(r) => {
                    return r;
                },
            }
        }
    }

    /// Serves a fresh write session to its end: performs each command it
    /// asks for and hands back the outcome.
    ///
    /// The blocks are stored in order. The first one whose address is not
    /// a usable block fails to authenticate and ends the session; the
    /// blocks before it stay stored.
    pub fn serve_write(&mut self, session: WriteSession) -> (r: Result<(), TagError>)
        requires
            old(self).wf(),
            session.wf(),
            session.phase == Phase::Ready,
            session.failure.is_none(),
            session.next == 0,
        ensures
            final(self).wf(),
            r.is_ok() ==> final(self).image() == stored(
                old(self).image(),
                commit_log(session.commits@),
            ),
            r.is_ok() == (forall|i: int|
                0 <= i < session.commits@.len() ==> index_of_address(
                    #[trigger] session.commits@[i].address,
                ).is_some()),
            r matches Err(e) ==> e == TagError::Authentication && exists|n: int|
                0 <= n < session.commits@.len() && index_of_address(
                    #[trigger] session.commits@[n].address,
                ).is_none() && final(self).image() == stored(
                    old(self).image(),
                    commit_log(session.commits@).subrange(0, n),
                ),
    {
        let ghost commits = session.commits@;
        let ghost log = commit_log(commits);
        let mut run = session;
        let mut outcome = Outcome::Done;
        assert(log.subrange(0, 0) =~= Seq::empty());
        loop
            invariant
                self.wf(),
                run.wf(),
                run.commits@ == commits,
                commits == session.commits@,
                log == commit_log(commits),
                run.phase != Phase::Finished,
                forall|i: int|
                    0 <= i < run.next ==> index_of_address(
                        #[trigger] commits[i].address,
                    ).is_some(),
                run.phase != Phase::Transferring ==> self.image() == stored(
                    old(self).image(),
                    log.subrange(0, run.next as int),
                ),
                run.phase == Phase::Ready ==> run.failure.is_none(),
                run.phase == Phase::Authenticating ==> run.failure.is_none() && (
                if index_of_address(commits[run.next as int].address).is_some() {
                    outcome is Done
                } else {
                    outcome is Failed
                }),
                run.phase == Phase::Transferring ==> run.failure.is_none()
                    && outcome is Done && index_of_address(
                    commits[run.next as int].address,
                ).is_some() && self.image() == stored(
                    old(self).image(),
                    log.subrange(0, run.next + 1),
                ),
                run.failure.is_some() ==> run.failure == Some(TagError::Authentication)
                    && run.next < commits.len() && index_of_address(
                    commits[run.next as int].address,
                ).is_none(),
            decreases
                    match run.phase {
                        Phase::Ready => 6 + 2 * (commits.len() as int),
                        Phase::Authenticating => 5 + 2 * (commits.len() - run.next),
                        Phase::Transferring => 4 + 2 * (commits.len() - run.next),
                        Phase::Halting => 2int,
                        Phase::Stopping => 1int,
                        Phase::Finished => 0int,
                    },
        {
                        let step = run.advance(outcome);
            match step {
                Step::Perform(command) => {
                    proof {
                        assert(run.issued@.last() == command);
                        if run.phase == Phase::Transferring {
                            let next = log.subrange(0, run.next + 1);
                            assert(next.drop_last() =~= log.subrange(0, run.next as int));
                            assert(next.last() == (
                                commits[run.next as int].address,
                                commits[run.next as int].data@,
                            ));
                        }
                    }
                    outcome = self.perform(&command);
                },
                Step::Finished(r) => {
                    proof {
                        if run.failure.is_none() {
                            assert(log.subrange(0, run.next as int) =~= log);
                        }
                    }
                    return r;
                },
            }
        }
    }

    /// Writes `s` to the front of the tag: frames it, streams the frame
    /// through a fresh writer, flushes, and commits every block handed out
    /// in a write session with the default key.
    ///
    /// A string whose frame is longer than the tag is refused and leaves
    /// the tag as it was. One that was written is what `read_string` then
    /// returns.
    pub fn write_string(&mut self, s: &str) -> (r: Result<(), TagError>)
        requires
            old(self).wf(),
        ensures
            final(self).wf(),
            framed(encode_utf8(s@)).len() <= 144 ==> r == Ok::<(), TagError>(())
                && final(self).image() == overlaid(old(self).image(), framed(encode_utf8(s@)))
                && unframed(final(self).image(), SCRATCH_LEN as nat) == Some(s@),
            framed(encode_utf8(s@)).len() > 144 ==> r == Err::<(), TagError>(
                TagError::CapacityExceeded,
            ) && final(self).image() == old(self).image(),
    {
        let mut writer = TagWriter::new();
        let mut commits: Vec<BlockWrite> = Vec::new();
        let ghost frame = framed(encode_utf8(s@));
        let ghost fresh = writer@;
        assert(fresh == (WriterView { block: 0, staged: Seq::empty() }));
        assert(commit_log(commits@) =~= Seq::empty());
        match writer.write_string(s, &mut commits) {
            Ok(()) => {},
            Err(e) => {
                return Err(e);
            },
        }
        proof {
            lemma_stored_stream(self.image(), frame);
            lemma_round_trip(self.image(), s@);
            let log = fresh.write_log(frame) + fresh.written(frame).flush_log();
            assert(commit_log(commits@) =~= log);
            assert forall|i: int| 0 <= i < commits@.len() implies index_of_address(
                #[trigger] commits@[i].address,
            ).is_some() by {
                assert(commits@[i].address == log[i].0);
                if i < fresh.write_log(frame).len() {
                    lemma_address_index(i);
                } else {
                    lemma_address_index(fresh.written(frame).block);
                }
            }
        }
        match self.serve_write(WriteSession::new(commits, default_key())) {
            Ok(()) => Ok(()),
            Err(e) => Err(e),
        }
    }

    /// Decodes the string stored at the front of the tag, through a fresh
    /// reader.
    pub fn read_string(&self) -> (r: Result<String, TagError>)
        requires
            self.wf(),
        ensures
            r.is_ok() == unframed(self.image(), SCRATCH_LEN as nat).is_some(),
            r matches Ok(s) ==> s@ == unframed(self.image(), SCRATCH_LEN as nat).unwrap(),
            r matches Err(e) ==> e == TagError::Decode,
    {
        let mut reader = TagReader::new();
        assert(self.image().subrange(0, 144) =~= self.image());
        reader.read_string(self)
    }
}

impl TagReader {
    /// Reads the rest of the stream from `tag`, block by block, each block
    /// fetched afresh.
    pub fn read_to_end(&mut self, tag: &SimulatedTag) -> (r: Result<Vec<u8>, TagError>)
        requires
            old(self).wf(),
            tag.wf(),
        ensures
            final(self).wf(),
            final(self)@.at_end(),
            final(self)@.offset == 0,
            r matches Ok(bytes) && bytes@ == tag.image().subrange(
                16 * old(self)@.block + old(self)@.offset,
                144,
            ),
    {
        let mut bytes: Vec<u8> = Vec::new();
        let ghost start = 16 * self@.block + self@.offset;
        assert(bytes@ =~= tag.image().subrange(start, start));
        loop
            invariant
                tag.wf(),
                self.wf(),
                start == 16 * old(self)@.block + old(self)@.offset,
                start <= 16 * self@.block + self@.offset <= 144,
                bytes@ == tag.image().subrange(start, 16 * self@.block + self@.offset),
            ensures
                self.wf(),
                self@.at_end(),
                bytes@ == tag.image().subrange(start, 144),
            decreases 9 - self@.block,
        {
            let address = match self.next_block() {
                Some(address) => address,
                None => {
                    break ;
                },
            };
            proof {
                lemma_address_index(self@.block);
            }
            let fetched = tag.fetch(address);
            let mut chunk = [0u8; 16];
            let ghost at = 16 * self@.block + self@.offset;
            let n = match self.read(&fetched, &mut chunk) {
                Ok(n) => n,
                Err(e) => {
                    return Err(e);
                },
            };
            let taken = slice_subrange(chunk.as_slice(), 0, n);
            bytes.extend_from_slice(taken);
            assert(bytes@ =~= tag.image().subrange(start, at + n));
        }
        Ok(bytes)
    }

    /// Reads the string framed at the reader's position on `tag`.
    ///
    /// Blocks are fetched only until the frame is complete, and never past
    /// the end of the stream. Bytes behind the string are ignored. Anything
    /// that is not a complete, well-formed frame is a decode error.
    pub fn read_string(&mut self, tag: &SimulatedTag) -> (r: Result<String, TagError>)
        requires
            old(self).wf(),
            tag.wf(),
        ensures
            final(self).wf(),
            ({
                let start = 16 * old(self)@.block + old(self)@.offset;
                let stop = 16 * final(self)@.block + final(self)@.offset;
                let rest = tag.image().subrange(start, 144);
                &&& start <= stop <= 144
                &&& final(self)@.at_end() || !wants_more(tag.image().subrange(start, stop))
                &&& stop > start ==> final(self)@.offset == 0
                &&& r.is_ok() == unframed(rest, SCRATCH_LEN as nat).is_some()
                &&& r matches Ok(s) ==> s@ == unframed(rest, SCRATCH_LEN as nat).unwrap()
                &&& r matches Err(e) ==> e == TagError::Decode
            }),
    {
        let mut bytes: Vec<u8> = Vec::new();
        let ghost start = 16 * self@.block + self@.offset;
        let ghost rest = tag.image().subrange(start, 144);
        assert(bytes@ =~= tag.image().subrange(start, start));
        loop
            invariant
                tag.wf(),
                self.wf(),
                start == 16 * old(self)@.block + old(self)@.offset,
                rest == tag.image().subrange(start, 144),
                start <= 16 * self@.block + self@.offset <= 144,
                16 * self@.block + self@.offset > start ==> self@.offset == 0,
                bytes@ == tag.image().subrange(start, 16 * self@.block + self@.offset),
            ensures
                self@.at_end() || !wants_more(bytes@),
            decreases 9 - self@.block,
        {
            if !frame_wants_more(bytes.as_slice()) {
                break ;
            }
            let address = match self.next_block() {
                Some(address) => address,
                None => {
                    break ;
                },
            };
            proof {
                lemma_address_index(self@.block);
            }
            let fetched = tag.fetch(address);
            let mut chunk = [0u8; 16];
            let ghost at = 16 * self@.block + self@.offset;
            let n = match self.read(&fetched, &mut chunk) {
                Ok(n) => n,
                Err(e) => {
                    return Err(TagError::Decode);
                },
            };
            let taken = slice_subrange(chunk.as_slice(), 0, n);
            bytes.extend_from_slice(taken);
            assert(bytes@ =~= tag.image().subrange(start, at + n));
        }
        proof {
            let stop = 16 * self@.block + self@.offset;
            assert(bytes@ =~= rest.subrange(0, stop - start));
            if self@.at_end() {
                assert(rest.subrange(0, stop - start) =~= rest);
            } else {
                lemma_unframed_prefix(rest, stop - start, SCRATCH_LEN as nat);
            }
        }
        decode_string(bytes.as_slice())
    }
}

/// A tag that was detected: the identifier it answered with.
pub struct Tag {
    pub uid: Vec<u8>,
}

impl Tag {
    /// A reader at the start of this tag's stream.
    pub fn new_reader(&self) -> (r: TagReader)
        ensures
            r.wf(),
            r@.block == 0,
            r@.offset == 0,
    {
        TagReader::new()
    }

    /// A writer at the start of this tag's stream, with nothing staged and
    /// a staging buffer of zeros.
    pub fn new_writer(&self) -> (w: TagWriter)
        ensures
            w.wf(),
            w.current_block == 0,
            w.current_pos_in_buffered_data == 0,
            forall|i: int| 0 <= i < 16 ==> w.buffered_data@[i] == 0u8,
            w@.block == 0,
            w@.staged == Seq::<u8>::empty(),
            w@.used() == 0,
    {
        TagWriter::new()
    }
}

} // verus!
