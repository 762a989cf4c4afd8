use vstd::prelude::*;

verus! {

/// Everything that can go wrong between the bus and a decoded string.
#[derive(Clone, Copy, Debug, PartialEq, Eq, Structural)]
pub enum TagError {
    /// The bus is unavailable or the reader chip did not initialise.
    Transport,
    /// The tag rejected the key for a block, or left the field.
    Authentication,
    /// A block transfer failed after the block was authenticated.
    Io,
    /// The stored bytes are not a well-formed string frame.
    Decode,
    /// A block beyond the last usable one was addressed.
    CapacityExceeded,
}

impl TagError {
    /// A short description for logs.
    pub fn message(&self) -> (text: &'static str)
        ensures
            text@ == Self::message_of(*self),
    {
        match self {
            TagError::Transport => "transport failure",
            TagError::Authentication => "block authentication failed",
            TagError::Io => "block transfer failed",
            TagError::Decode => "malformed string frame",
            TagError::CapacityExceeded => "tag capacity exceeded",
        }
    }

    /// The text that `message` returns for each error.
    pub open spec fn message_of(e: TagError) -> Seq<char> {
        match e {
            TagError::Transport => "transport failure"@,
            TagError::Authentication => "block authentication failed"@,
            TagError::Io => "block transfer failed"@,
            TagError::Decode => "malformed string frame"@,
            TagError::CapacityExceeded => "tag capacity exceeded"@,
        }
    }
}

} // verus!
