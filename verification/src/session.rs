use vstd::prelude::*;
use crate::codec::{decode_string, frame_wants_more, unframed, wants_more, SCRATCH_LEN};
use crate::error::TagError;
use crate::layout::data_blocks;
use crate::reader::{Fetched, TagReader};
use crate::writer::BlockWrite;

verus! {

/// One transaction on the bus. The host performs it while it holds the
/// lock on the reader chip, and reports the outcome.
#[derive(Clone, Copy, Debug)]
pub enum Command {
    /// Authenticate the block at `address` with `key`.
    Authenticate { address: u8, key: [u8; 6] },
    /// Fetch the sixteen bytes of the block at `address`.
    Fetch { address: u8 },
    /// Write `data` to the block at `address`.
    Commit { address: u8, data: [u8; 16] },
    /// Halt the tag.
    Halt,
    /// Clear the reader's cryptographic state.
    StopCrypto,
}

/// What the host reports of the command it performed.
#[derive(Clone, Copy, Debug)]
pub enum Outcome {
    /// The command succeeded and returned nothing.
    Done,
    /// The fetch succeeded and returned this block.
    Block([u8; 16]),
    /// The command failed.
    Failed,
}

/// What a session asks of the host next.
#[derive(Debug)]
pub enum Step<T> {
    /// Perform this command and report its outcome.
    Perform(Command),
    /// The session is over, with this result.
    Finished(Result<T, TagError>),
}

/// Where a session stands.
#[derive(Clone, Copy, Debug, PartialEq, Eq, Structural)]
pub enum Phase {
    /// Nothing was asked yet.
    Ready,
    /// An authentication was asked for.
    Authenticating,
    /// A fetch or a commit was asked for.
    Transferring,
    /// The halt was asked for.
    Halting,
    /// The clearing of the cryptographic state was asked for.
    Stopping,
    /// The session is over.
    Finished,
}

/// Every transfer in `issued` directly follows the authentication of its
/// own block with `key`.
#[verifier::opaque]
pub open spec fn freshly_authenticated(issued: Seq<Command>, key: [u8; 6]) -> bool {
    forall|i: int|
        0 <= i < issued.len() ==> match #[trigger] issued[i] {
            Command::Fetch { address } => i > 0 && issued[i - 1] == (Command::Authenticate {
                address,
                key,
            }),
            Command::Commit { address, data } => i > 0 && issued[i - 1] == (
            Command::Authenticate { address, key }),
            _ => true,
        }
}

/// `issued` ends with the release of the tag: the halt, then the clearing
/// of the cryptographic state.
pub open spec fn released(issued: Seq<Command>) -> bool {
    issued.len() >= 2 && issued[issued.len() - 2] == Command::Halt && issued.last()
        == Command::StopCrypto
}

/// Nothing in `issued` releases the tag.
#[verifier::opaque]
pub open spec fn holding(issued: Seq<Command>) -> bool {
    forall|i: int|
        0 <= i < issued.len() ==> #[trigger] issued[i] != Command::Halt && issued[i]
            != Command::StopCrypto
}

/// What a phase says of the commands issued so far: the session holds the
/// tag until it halts it, and once over it has released it.
pub open spec fn phase_fits(phase: Phase, issued: Seq<Command>) -> bool {
    match phase {
        Phase::Ready => issued.len() == 0,
        Phase::Authenticating | Phase::Transferring => issued.len() > 0 && holding(issued),
        Phase::Halting => issued.len() > 0 && issued.last() == Command::Halt && holding(
            issued.drop_last(),
        ),
        Phase::Stopping | Phase::Finished => released(issued) && holding(
            issued.subrange(0, issued.len() - 2),
        ),
    }
}

/// Reads one string from a tag, block by block, and releases the tag
/// whichever way the reading ends.
pub struct ReadSession {
    pub reader: TagReader,
    pub key: [u8; 6],
    pub bytes: Vec<u8>,
    pub phase: Phase,
    pub failure: Option<TagError>,
    pub issued: Ghost<Seq<Command>>,
}

impl ReadSession {
    /// The session's invariant.
    pub open spec fn wf(&self) -> bool {
        &&& self.reader.wf()
        &&& freshly_authenticated(self.issued@, self.key)
        &&& phase_fits(self.phase, self.issued@)
        &&& self.phase == Phase::Authenticating ==> !self.reader@.at_end() && self.issued@.last()
            == (Command::Authenticate {
            address: data_blocks()[self.reader@.block],
            key: self.key,
        })
        &&& self.phase == Phase::Transferring ==> !self.reader@.at_end() && self.issued@.last()
            == (Command::Fetch { address: data_blocks()[self.reader@.block] })
    }

    /// What the session returns once it is over: the failure that ended
    /// it, or else what the bytes read decode to.
    pub open spec fn outcome(&self) -> Result<Seq<char>, TagError> {
        match self.failure {
            Some(e) => Err(e),
            None => match unframed(self.bytes@, SCRATCH_LEN as nat) {
                Some(text) => Ok(text),
                None => Err(TagError::Decode),
            },
        }
    }

    /// Whether the session goes on to the next block: the frame is not
    /// complete and the stream is not at its end.
    pub open spec fn goes_on(&self) -> bool {
        wants_more(self.bytes@) && !self.reader@.at_end()
    }

    /// A session at the start of the stream, with `key` for every block.
    pub fn new(key: [u8; 6]) -> (s: ReadSession)
        ensures
            s.wf(),
            s.phase == Phase::Ready,
            s.key == key,
            s.bytes@.len() == 0,
            s.failure.is_none(),
            s.reader@.block == 0,
            s.reader@.offset == 0,
    {
        proof {
            reveal(freshly_authenticated);
            reveal(holding);
        }
        ReadSession {
            reader: TagReader::new(),
            key,
            bytes: Vec::new(),
            phase: Phase::Ready,
            failure: None,
            issued: Ghost(Seq::empty()),
        }
    }

    /// Whether the session holds the part of its invariant that can be
    /// tested.
    pub fn is_valid(&self) -> (valid: bool)
        ensures
            valid == self.reader.wf(),
    {
        self.reader.is_valid()
    }

    /// Asks for the authentication of the next block, or starts the
    /// release where no block is needed.
    fn proceed(&mut self) -> (step: Step<String>)
        requires
            old(self).reader.wf(),
            freshly_authenticated(old(self).issued@, old(self).key),
            old(self).issued@.len() == 0 || holding(old(self).issued@),
        ensures
            final(self).wf(),
            final(self).reader == old(self).reader,
            final(self).key == old(self).key,
            final(self).bytes == old(self).bytes,
            final(self).failure == old(self).failure,
            old(self).goes_on() ==> final(self).phase == Phase::Authenticating && step == Step::<
                String,
            >::Perform(final(self).issued@.last()),
            !old(self).goes_on() ==> final(self).phase == Phase::Halting && step == Step::<
                String,
            >::Perform(Command::Halt),
            final(self).issued@ == old(self).issued@.push(final(self).issued@.last()),
    {
        proof {
            reveal(freshly_authenticated);
            reveal(holding);
        }
        if frame_wants_more(self.bytes.as_slice()) {
            match self.reader.next_block() {
                Some(address) => {
                    let command = Command::Authenticate { address, key: self.key };
                    self.phase = Phase::Authenticating;
                    self.issued = Ghost(self.issued@.push(command));
                    return Step::Perform(command);
                },
                None => {},
            }
        }
        self.release()
    }

    /// Starts the release of the tag.
    fn release(&mut self) -> (step: Step<String>)
        requires
            old(self).reader.wf(),
            freshly_authenticated(old(self).issued@, old(self).key),
            old(self).issued@.len() == 0 || holding(old(self).issued@),
        ensures
            final(self).wf(),
            final(self).reader == old(self).reader,
            final(self).key == old(self).key,
            final(self).bytes == old(self).bytes,
            final(self).failure == old(self).failure,
            final(self).phase == Phase::Halting,
            step == Step::<String>::Perform(Command::Halt),
            final(self).issued@ == old(self).issued@.push(Command::Halt),
    {
        proof {
            reveal(freshly_authenticated);
            reveal(holding);
        }
        self.phase = Phase::Halting;
        self.issued = Ghost(self.issued@.push(Command::Halt));
        assert(self.issued@.drop_last() =~= old(self).issued@);
        Step::Perform(Command::Halt)
    }

    /// Takes the outcome of the command that was asked for last, and says
    /// what comes next. The first call takes any outcome: nothing was
    /// asked for yet.
    ///
    /// Each block is authenticated afresh right before it is fetched. A
    /// failed authentication or fetch ends the reading with that error.
    /// However the reading ends, the tag is halted and the cryptographic
    /// state cleared before the session is over.
    pub fn advance(&mut self, outcome: Outcome) -> (step: Step<String>)
        requires
            old(self).wf(),
        ensures
            final(self).wf(),
            final(self).key == old(self).key,
            match step {
                Step::Perform(command) => final(self).issued@ == old(self).issued@.push(command),
                Step::Finished(r) => {
                    &&& final(self).issued@ == old(self).issued@
                    &&& final(self).phase == Phase::Finished
                    &&& released(final(self).issued@)
                    &&& r.is_ok() == final(self).outcome().is_ok()
                    &&& r matches Ok(s) ==> final(self).outcome() == Ok::<Seq<char>, TagError>(s@)
                    &&& r matches Err(e) ==> final(self).outcome() == Err::<Seq<char>, TagError>(e)
                },
            },
            final(self).bytes@ == old(self).bytes@ || (old(self).phase == Phase::Transferring
                && outcome is Block),
            final(self).reader == old(self).reader || (old(self).phase == Phase::Transferring
                && outcome is Block),
            match old(self).phase {
                Phase::Ready => {
                    &&& step is Perform
                    &&& final(self).failure == old(self).failure
                    &&& final(self).phase == if old(self).goes_on() {
                        Phase::Authenticating
                    } else {
                        Phase::Halting
                    }
                },
                Phase::Authenticating => {
                    &&& step is Perform
                    &&& outcome is Done ==> final(self).phase == Phase::Transferring
                        && final(self).failure == old(self).failure
                    &&& !(outcome is Done) ==> final(self).phase == Phase::Halting
                        && final(self).failure == Some(TagError::Authentication)
                },
                Phase::Transferring => {
                    &&& step is Perform
                    &&& match outcome {
                        Outcome::Block(data) => {
                            &&& final(self).failure == old(self).failure
                            &&& final(self).reader@ == old(self).reader@.advanced(16)
                            &&& final(self).bytes@ == old(self).bytes@ + data@.subrange(
                                old(self).reader@.offset,
                                16,
                            )
                            &&& final(self).phase == if final(self).goes_on() {
                                Phase::Authenticating
                            } else {
                                Phase::Halting
                            }
                        },
                        _ => final(self).phase == Phase::Halting && final(self).failure == Some(
                            TagError::Io,
                        ),
                    }
                },
                Phase::Halting => {
                    &&& step == Step::<String>::Perform(Command::StopCrypto)
                    &&& final(self).phase == Phase::Stopping
                    &&& final(self).failure == old(self).failure
                },
                Phase::Stopping | Phase::Finished => {
                    &&& step is Finished
                    &&& final(self).failure == old(self).failure
                },
            },
    {
        proof {
            reveal(freshly_authenticated);
            reveal(holding);
        }
        match self.phase {
            Phase::Ready => {
                self.proceed()
            },
            Phase::Authenticating => {
                match outcome {
                    Outcome::Done => {
                        match self.reader.next_block() {
                            Some(address) => {
                                let command = Command::Fetch { address };
                                self.phase = Phase::Transferring;
                                self.issued = Ghost(self.issued@.push(command));
                                Step::Perform(command)
                            },
                            None => self.release(),
                        }
                    },
                    _ => {
                        self.failure = Some(TagError::Authentication);
                        self.release()
                    },
                }
            },
            Phase::Transferring => {
                match outcome {
                    Outcome::Block(data) => {
                        let mut chunk = [0u8; 16];
                        match self.reader.read(&Fetched::Block(data), &mut chunk) {
                            Ok(n) => {
                                let taken = vstd::slice::slice_subrange(chunk.as_slice(), 0, n);
                                self.bytes.extend_from_slice(taken);
                                assert(self.bytes@ =~= old(self).bytes@ + data@.subrange(
                                    old(self).reader@.offset,
                                    16,
                                ));
                            },
                            Err(_) => {},
                        }
                        self.proceed()
                    },
                    _ => {
                        self.failure = Some(TagError::Io);
                        self.release()
                    },
                }
            },
            Phase::Halting => {
                self.phase = Phase::Stopping;
                self.issued = Ghost(self.issued@.push(Command::StopCrypto));
                assert(self.issued@.subrange(0, self.issued@.len() - 2) =~= old(self).issued@.drop_last());
                Step::Perform(Command::StopCrypto)
            },
            Phase::Stopping | Phase::Finished => {
                self.phase = Phase::Finished;
                match self.failure {
                    Some(e) => Step::Finished(Err(e)),
                    None => Step::Finished(decode_string(self.bytes.as_slice())),
                }
            },
        }
    }
}

/// Commits a list of blocks to a tag, one after the other, and releases
/// the tag whichever way the writing ends.
pub struct WriteSession {
    pub commits: Vec<BlockWrite>,
    pub next: usize,
    pub key: [u8; 6],
    pub phase: Phase,
    pub failure: Option<TagError>,
    pub issued: Ghost<Seq<Command>>,
}

impl WriteSession {
    /// The session's invariant. `next` counts the blocks that are on the
    /// tag; a session that ends without a failure has committed them all.
    pub open spec fn wf(&self) -> bool {
        &&& self.next <= self.commits@.len()
        &&& freshly_authenticated(self.issued@, self.key)
        &&& phase_fits(self.phase, self.issued@)
        &&& self.phase == Phase::Authenticating ==> self.next < self.commits@.len()
            && self.issued@.last() == (Command::Authenticate {
            address: self.commits@[self.next as int].address,
            key: self.key,
        })
        &&& self.phase == Phase::Transferring ==> self.next < self.commits@.len()
            && self.issued@.last() == (Command::Commit {
            address: self.commits@[self.next as int].address,
            data: self.commits@[self.next as int].data,
        })
        &&& (self.phase == Phase::Halting || self.phase == Phase::Stopping || self.phase
            == Phase::Finished) && self.failure.is_none() ==> self.next == self.commits@.len()
    }

    /// A session that will commit `commits`, in order, with `key` for
    /// every block.
    pub fn new(commits: Vec<BlockWrite>, key: [u8; 6]) -> (s: WriteSession)
        ensures
            s.wf(),
            s.phase == Phase::Ready,
            s.key == key,
            s.commits == commits,
            s.next == 0,
            s.failure.is_none(),
    {
        proof {
            reveal(freshly_authenticated);
            reveal(holding);
        }
        WriteSession {
            commits,
            next: 0,
            key,
            phase: Phase::Ready,
            failure: None,
            issued: Ghost(Seq::empty()),
        }
    }

    /// Whether the session holds the part of its invariant that can be
    /// tested.
    pub fn is_valid(&self) -> (valid: bool)
        ensures
            valid == (self.next <= self.commits@.len()),
    {
        self.next <= self.commits.len()
    }

    /// Asks for the authentication of the next block, or starts the
    /// release where none is left.
    fn proceed(&mut self) -> (step: Step<()>)
        requires
            old(self).next <= old(self).commits@.len(),
            old(self).failure.is_none(),
            freshly_authenticated(old(self).issued@, old(self).key),
            old(self).issued@.len() == 0 || holding(old(self).issued@),
        ensures
            final(self).wf(),
            final(self).commits == old(self).commits,
            final(self).next == old(self).next,
            final(self).key == old(self).key,
            final(self).failure == old(self).failure,
            final(self).phase == if old(self).next < old(self).commits@.len() {
                Phase::Authenticating
            } else {
                Phase::Halting
            },
            step is Perform,
            final(self).issued@ == old(self).issued@.push(step->Perform_0),
    {
        proof {
            reveal(freshly_authenticated);
            reveal(holding);
        }
        if self.next < self.commits.len() {
            let command = Command::Authenticate {
                address: self.commits[self.next].address,
                key: self.key,
            };
            self.phase = Phase::Authenticating;
            self.issued = Ghost(self.issued@.push(command));
            Step::Perform(command)
        } else {
            self.release()
        }
    }

    /// Starts the release of the tag.
    fn release(&mut self) -> (step: Step<()>)
        requires
            old(self).next <= old(self).commits@.len(),
            old(self).failure.is_none() ==> old(self).next == old(self).commits@.len(),
            freshly_authenticated(old(self).issued@, old(self).key),
            old(self).issued@.len() == 0 || holding(old(self).issued@),
        ensures
            final(self).wf(),
            final(self).commits == old(self).commits,
            final(self).next == old(self).next,
            final(self).key == old(self).key,
            final(self).failure == old(self).failure,
            final(self).phase == Phase::Halting,
            step == Step::<()>::Perform(Command::Halt),
            final(self).issued@ == old(self).issued@.push(Command::Halt),
    {
        proof {
            reveal(freshly_authenticated);
            reveal(holding);
        }
        self.phase = Phase::Halting;
        self.issued = Ghost(self.issued@.push(Command::Halt));
        assert(self.issued@.drop_last() =~= old(self).issued@);
        Step::Perform(Command::Halt)
    }

    /// Takes the outcome of the command that was asked for last, and says
    /// what comes next. The first call takes any outcome: nothing was
    /// asked for yet.
    ///
    /// Each block is authenticated afresh right before it is committed. A
    /// failed authentication or commit ends the writing with that error;
    /// the blocks committed before it stay on the tag. However the
    /// writing ends, the tag is halted and the cryptographic state cleared
    /// before the session is over.
    pub fn advance(&mut self, outcome: Outcome) -> (step: Step<()>)
        requires
            old(self).wf(),
        ensures
            final(self).wf(),
            final(self).key == old(self).key,
            final(self).commits == old(self).commits,
            match step {
                Step::Perform(command) => final(self).issued@ == old(self).issued@.push(command),
                Step::Finished(r) => {
                    &&& final(self).issued@ == old(self).issued@
                    &&& final(self).phase == Phase::Finished
                    &&& released(final(self).issued@)
                    &&& match final(self).failure {
                        Some(e) => r == Err::<(), TagError>(e),
                        None => r == Ok::<(), TagError>(()) && final(self).next
                            == final(self).commits@.len(),
                    }
                },
            },
            final(self).next == old(self).next || (old(self).phase == Phase::Transferring
                && outcome is Done),
            match old(self).phase {
                Phase::Ready => {
                    &&& step is Perform
                    &&& final(self).failure == old(self).failure
                    &&& final(self).phase == if old(self).failure.is_none() && old(self).next
                        < old(self).commits@.len() {
                        Phase::Authenticating
                    } else {
                        Phase::Halting
                    }
                },
                Phase::Authenticating => {
                    &&& step is Perform
                    &&& outcome is Done ==> final(self).phase == Phase::Transferring
                        && final(self).failure == old(self).failure
                    &&& !(outcome is Done) ==> final(self).phase == Phase::Halting
                        && final(self).failure == Some(TagError::Authentication)
                },
                Phase::Transferring => {
                    &&& step is Perform
                    &&& outcome is Done ==> {
                        &&& final(self).next == old(self).next + 1
                        &&& final(self).failure == old(self).failure
                        &&& final(self).phase == if old(self).failure.is_none() && old(self).next
                            + 1 < old(self).commits@.len() {
                            Phase::Authenticating
                        } else {
                            Phase::Halting
                        }
                    }
                    &&& !(outcome is Done) ==> final(self).phase == Phase::Halting
                        && final(self).failure == Some(TagError::Io)
                },
                Phase::Halting => {
                    &&& step == Step::<()>::Perform(Command::StopCrypto)
                    &&& final(self).phase == Phase::Stopping
                    &&& final(self).failure == old(self).failure
                },
                Phase::Stopping | Phase::Finished => {
                    &&& step is Finished
                    &&& final(self).failure == old(self).failure
                },
            },
    {
        proof {
            reveal(freshly_authenticated);
            reveal(holding);
        }
        match self.phase {
            Phase::Ready => {
                if self.failure.is_none() {
                    self.proceed()
                } else {
                    self.release()
                }
            },
            Phase::Authenticating => {
                match outcome {
                    Outcome::Done => {
                        let command = Command::Commit {
                            address: self.commits[self.next].address,
                            data: self.commits[self.next].data,
                        };
                        self.phase = Phase::Transferring;
                        self.issued = Ghost(self.issued@.push(command));
                        Step::Perform(command)
                    },
                    _ => {
                        self.failure = Some(TagError::Authentication);
                        self.release()
                    },
                }
            },
            Phase::Transferring => {
                match outcome {
                    Outcome::Done => {
                        if self.next < self.commits.len() {
                            self.next += 1;
                        }
                        if self.failure.is_none() {
                            self.proceed()
                        } else {
                            self.release()
                        }
                    },
                    _ => {
                        self.failure = Some(TagError::Io);
                        self.release()
                    },
                }
            },
            Phase::Halting => {
                self.phase = Phase::Stopping;
                self.issued = Ghost(self.issued@.push(Command::StopCrypto));
                assert(self.issued@.subrange(0, self.issued@.len() - 2) =~= old(self).issued@.drop_last());
                Step::Perform(Command::StopCrypto)
            },
            Phase::Stopping | Phase::Finished => {
                self.phase = Phase::Finished;
                match self.failure {
                    Some(e) => Step::Finished(Err(e)),
                    None => Step::Finished(Ok(())),
                }
            },
        }
    }
}

} // verus!
