use vstd::prelude::*;
use crate::error::TagError;

verus! {

/// Seconds between two polls of the reader.
pub const POLL_INTERVAL_SECS: u64 = 2;

/// A request that a tag can carry.
#[derive(Debug, Clone, PartialEq, Eq)]
pub enum UserRequest {
    SpotifyUri(String),
}

/// The ordered stream of events between the one watcher and the one
/// consumer: `Some(request)` when a tag appeared, `None` when it left.
/// Nothing is dropped and nothing overtakes.
pub struct UserRequests<T> {
    pub pending: Vec<Option<T>>,
}

impl<T> View for UserRequests<T> {
    type V = Seq<Option<T>>;

    open spec fn view(&self) -> Seq<Option<T>> {
        self.pending@
    }
}

impl<T> UserRequests<T> {
    /// An empty stream.
    pub fn new() -> (r: Self)
        ensures
            r@ == Seq::<Option<T>>::empty(),
    {
        UserRequests { pending: Vec::new() }
    }

    /// Appends an event behind those that wait.
    pub fn send(&mut self, event: Option<T>)
        ensures
            final(self)@ == old(self)@.push(event),
    {
        self.pending.push(event);
    }

    /// Takes the oldest event that waits; `None` where none does.
    pub fn next(&mut self) -> (r: Option<Option<T>>)
        ensures
            old(self)@.len() == 0 ==> r.is_none() && final(self)@ == old(self)@,
            old(self)@.len() > 0 ==> r == Some(old(self)@[0]) && final(self)@ == old(
                self,
            )@.subrange(1, old(self)@.len() as int),
    {
        if self.pending.len() == 0 {
            None
        } else {
            let event = self.pending.remove(0);
            assert(self@ =~= old(self)@.subrange(1, old(self)@.len() as int));
            Some(event)
        }
    }
}

/// What one poll of the reader found.
#[derive(Debug, Clone)]
pub enum Detection {
    /// No tag in the field.
    NoTag,
    /// A tag, with the identifier it answered with.
    Tag(Vec<u8>),
    /// The bus or the reader chip failed.
    Fault,
}

/// What the watcher asks of its host after a poll.
#[derive(Debug, Clone, Copy, PartialEq, Eq, Structural)]
pub enum Reaction {
    /// Nothing changed.
    Idle,
    /// The tag left; the absence event is sent.
    Absence,
    /// A new tag appeared: read its string and hand it to `decoded`.
    Decode,
    /// The poll failed: report it and poll again.
    Report,
}

/// Whether two identifiers are the same bytes.
pub fn same_uid(a: &[u8], b: &[u8]) -> (same: bool)
    ensures
        same == (a@ == b@),
{
    if a.len() != b.len() {
        return false;
    }
    let mut i: usize = 0;
    while i < a.len()
        invariant
            a@.len() == b@.len(),
            i <= a@.len(),
            forall|k: int| 0 <= k < i ==> a@[k] == b@[k],
        decreases a@.len() - i,
    {
        if a[i] != b[i] {
            return false;
        }
        i += 1;
    }
    assert(a@ =~= b@);
    true
}

/// The watcher: it remembers the tag it last announced, and turns polls
/// into events only when the tag changes.
pub struct UserRequestTransmitterRfid {
    pub last_uid: Option<Vec<u8>>,
}

impl View for UserRequestTransmitterRfid {
    type V = Option<Seq<u8>>;

    open spec fn view(&self) -> Option<Seq<u8>> {
        match self.last_uid {
            Some(uid) => Some(uid@),
            None => None,
        }
    }
}

/// The watcher's reaction to a poll, from the tag it last announced.
pub open spec fn reaction_to(last: Option<Seq<u8>>, detection: Detection) -> Reaction {
    match detection {
        Detection::NoTag => if last.is_some() {
            Reaction::Absence
        } else {
            Reaction::Idle
        },
        Detection::Tag(uid) => if last == Some(uid@) {
            Reaction::Idle
        } else {
            Reaction::Decode
        },
        Detection::Fault => Reaction::Report,
    }
}

impl UserRequestTransmitterRfid {
    /// A watcher that has announced no tag.
    pub fn new() -> (w: Self)
        ensures
            w@.is_none(),
    {
        UserRequestTransmitterRfid { last_uid: None }
    }

    /// Takes the outcome of one poll.
    ///
    /// A tag that left is forgotten and its absence sent. A tag that is
    /// still the one announced changes nothing, and neither does a new tag
    /// or a failed poll: a new tag is announced only once it is decoded.
    pub fn poll<T>(&mut self, detection: &Detection, tx: &mut UserRequests<T>) -> (r: Reaction)
        ensures
            r == reaction_to(old(self)@, *detection),
            r == Reaction::Absence ==> final(self)@.is_none() && final(tx)@ == old(tx)@.push(
                None,
            ),
            r != Reaction::Absence ==> final(self)@ == old(self)@ && final(tx)@ == old(tx)@,
    {
        match detection {
            Detection::NoTag => {
                if self.last_uid.is_some() {
                    self.last_uid = None;
                    tx.send(None);
                    Reaction::Absence
                } else {
                    Reaction::Idle
                }
            },
            Detection::Tag(uid) => {
                let known = match &self.last_uid {
                    Some(last) => same_uid(last.as_slice(), uid.as_slice()),
                    None => false,
                };
                if known {
                    Reaction::Idle
                } else {
                    Reaction::Decode
                }
            },
            Detection::Fault => Reaction::Report,
        }
    }

    /// Takes what reading a new tag gave.
    ///
    /// A decoded request is sent as a presence event and the tag is taken
    /// as announced. A failure is handed back for reporting; the watcher
    /// does not adopt the tag, so the next poll tries it again.
    pub fn decoded<T>(
        &mut self,
        uid: Vec<u8>,
        outcome: Result<T, TagError>,
        tx: &mut UserRequests<T>,
    ) -> (r: Option<TagError>)
        ensures
            match outcome {
                Ok(request) => r.is_none() && final(self)@ == Some(uid@) && final(tx)@ == old(
                    tx,
                )@.push(Some(request)),
                Err(e) => r == Some(e) && final(self)@ == old(self)@ && final(tx)@ == old(tx)@,
            },
    {
        match outcome {
            Ok(request) => {
                self.last_uid = Some(uid);
                tx.send(Some(request));
                None
            },
            Err(e) => Some(e),
        }
    }
}

} // verus!
