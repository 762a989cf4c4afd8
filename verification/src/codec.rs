use vstd::prelude::*;
use vstd::utf8::{decode_utf8, encode_utf8, valid_utf8};
use crate::error::TagError;
use crate::layout::CAPACITY;
use crate::writer::{commit_log, BlockWrite, TagWriter};

verus! {

/// Room for a decoded payload, well above what a tag can hold.
pub const SCRATCH_LEN: usize = 1024;

/// The length header of a string of `len` bytes: the shortest of the four
/// MessagePack string headers that can express `len`, lengths big-endian.
pub open spec fn frame_header(len: nat) -> Seq<u8> {
    if len < 32 {
        seq![(0xa0 + len) as u8]
    } else if len < 256 {
        seq![0xd9u8, len as u8]
    } else if len < 65536 {
        seq![0xdau8, (len / 256) as u8, (len % 256) as u8]
    } else {
        seq![
            0xdbu8,
            (len / 16777216 % 256) as u8,
            (len / 65536 % 256) as u8,
            (len / 256 % 256) as u8,
            (len % 256) as u8,
        ]
    }
}

/// A payload behind its length header.
pub open spec fn framed(payload: Seq<u8>) -> Seq<u8> {
    frame_header(payload.len()) + payload
}

/// The header at the front of `bytes`, as the pair of its own length and
/// the payload length it announces; `None` where `bytes` does not start
/// with a complete string header.
pub open spec fn header_of(bytes: Seq<u8>) -> Option<(nat, nat)> {
    if bytes.len() == 0 {
        None
    } else if 0xa0 <= bytes[0] <= 0xbf {
        Some((1nat, (bytes[0] - 0xa0) as nat))
    } else if bytes[0] == 0xd9 && bytes.len() >= 2 {
        Some((2nat, bytes[1] as nat))
    } else if bytes[0] == 0xda && bytes.len() >= 3 {
        Some((3nat, (bytes[1] * 256 + bytes[2]) as nat))
    } else if bytes[0] == 0xdb && bytes.len() >= 5 {
        Some(
            (
                5nat,
                (bytes[1] * 16777216 + bytes[2] * 65536 + bytes[3] * 256 + bytes[4]) as nat,
            ),
        )
    } else {
        None
    }
}

/// The string framed at the front of `bytes`, decoded with `room` bytes of
/// scratch space: there must be a header, a payload that fits the room and
/// is all there, and the payload must be UTF-8. Bytes behind the payload
/// are ignored.
pub open spec fn unframed(bytes: Seq<u8>, room: nat) -> Option<Seq<char>> {
    match header_of(bytes) {
        None => None,
        Some((head, len)) => {
            let payload = bytes.subrange(head as int, (head + len) as int);
            if len <= room && head + len <= bytes.len() && valid_utf8(payload) {
                Some(decode_utf8(payload))
            } else {
                None
            }
        },
    }
}

/// Whether `bytes`, the front of a stream, stops short of the frame it
/// starts: the header is cut off, or the payload it announces is. Bytes
/// that start no frame at all want no more.
pub open spec fn wants_more(bytes: Seq<u8>) -> bool {
    match header_of(bytes) {
        Some((head, len)) => bytes.len() < head + len,
        None => bytes.len() == 0 || (bytes[0] == 0xd9 && bytes.len() < 2) || (bytes[0] == 0xda
            && bytes.len() < 3) || (bytes[0] == 0xdb && bytes.len() < 5),
    }
}

/// Whether more of the stream has to be read before the string at its
/// front can be decoded.
pub fn frame_wants_more(bytes: &[u8]) -> (more: bool)
    ensures
        more == wants_more(bytes@),
{
    let len = bytes.len();
    if len == 0 {
        return true;
    }
    let marker = bytes[0];
    if 0xa0 <= marker && marker <= 0xbf {
        let payload: usize = (marker - 0xa0) as usize;
        len - 1 < payload
    } else if marker == 0xd9 {
        len < 2 || len - 2 < bytes[1] as usize
    } else if marker == 0xda {
        len < 3 || ((len - 3) as u64) < (bytes[1] as u64) * 256 + bytes[2] as u64
    } else if marker == 0xdb {
        len < 5 || ((len - 5) as u64) < (bytes[1] as u64) * 16777216 + (bytes[2] as u64) * 65536
            + (bytes[3] as u64) * 256 + bytes[4] as u64
    } else {
        false
    }
}

/// Once the front of a stream wants no more, the rest of the stream does
/// not change what it decodes to.
pub proof fn lemma_unframed_prefix(whole: Seq<u8>, cut: int, room: nat)
    requires
        0 <= cut <= whole.len(),
        !wants_more(whole.subrange(0, cut)),
    ensures
        unframed(whole.subrange(0, cut), room) == unframed(whole, room),
{
    let front = whole.subrange(0, cut);
    match header_of(front) {
        Some((head, len)) => {
            assert(header_of(whole) == Some((head, len)));
            assert(front.subrange(head as int, (head + len) as int) =~= whole.subrange(
                head as int,
                (head + len) as int,
            ));
        },
        None => {
            assert(front[0] == whole[0]);
            assert(header_of(whole).is_none());
        },
    }
}

/// Frames `s` with `rmp::encode::write_str`, writing into a fresh vector.
///
/// Trusted: the result is the header for the byte length of `s`, then the
/// bytes of `s`. The length is cut to 32 bits by the encoder, hence the
/// bound.
#[verifier::external_body]
fn pack_str(s: &str) -> (frame: Vec<u8>)
    requires
        encode_utf8(s@).len() <= u32::MAX,
    ensures
        frame@ == framed(encode_utf8(s@)),
{
    let mut frame: Vec<u8> = Vec::new();
    let _ = rmp::encode::write_str(&mut frame, s);
    frame
}

/// Reads one string from the front of `bytes` with `rmp::decode::read_str`,
/// through a scratch buffer of `room` bytes.
///
/// Trusted: the decoder accepts any of the four string headers, refuses a
/// payload longer than the scratch buffer or than the bytes that follow the
/// header, and refuses a payload that is not UTF-8; what it accepts it
/// returns unchanged.
#[verifier::external_body]
fn unpack_str(bytes: &[u8], room: usize) -> (text: Option<String>)
    ensures
        text.is_some() == unframed(bytes@, room as nat).is_some(),
        text matches Some(s) ==> s@ == unframed(bytes@, room as nat).unwrap(),
{
    let mut scratch: Vec<u8> = vec![0u8; room];
    let mut source = rmp::decode::Bytes::new(bytes);
    match rmp::decode::read_str(&mut source, &mut scratch) {
        Ok(s) => Some(s.to_string()),
        Err(_) => None,
    }
}

/// Decodes the string stored at the front of a tag's bytes.
///
/// Bytes behind the string are ignored. Anything that is not a complete,
/// well-formed frame is a decode error.
pub fn decode_string(image: &[u8]) -> (r: Result<String, TagError>)
    ensures
        r.is_ok() == unframed(image@, SCRATCH_LEN as nat).is_some(),
        r matches Ok(s) ==> s@ == unframed(image@, SCRATCH_LEN as nat).unwrap(),
        r matches Err(e) ==> e == TagError::Decode,
{
    match unpack_str(image, SCRATCH_LEN) {
        Some(s) => Ok(s),
        None => Err(TagError::Decode),
    }
}

impl TagWriter {
    /// Frames `s` and writes it through, then flushes, so that every byte
    /// of the frame is handed out in a block.
    ///
    /// A string whose frame does not fit behind what was written before is
    /// refused before anything is staged or handed out.
    pub fn write_string(&mut self, s: &str, commits: &mut Vec<BlockWrite>) -> (r: Result<
        (),
        TagError,
    >)
        requires
            old(self).wf(),
        ensures
            final(self).wf(),
            old(self)@.fits(framed(encode_utf8(s@))) ==> {
                let frame = framed(encode_utf8(s@));
                &&& r == Ok::<(), TagError>(())
                &&& final(self)@ == old(self)@.written(frame).flushed()
                &&& commit_log(final(commits)@) == commit_log(old(commits)@) + old(
                    self,
                )@.write_log(frame) + old(self)@.written(frame).flush_log()
            },
            !old(self)@.fits(framed(encode_utf8(s@))) ==> {
                &&& r == Err::<(), TagError>(TagError::CapacityExceeded)
                &&& *final(self) == *old(self)
                &&& final(commits)@ == old(commits)@
            },
    {
        if s.as_bytes().len() > CAPACITY {
            return Err(TagError::CapacityExceeded);
        }
        let frame = pack_str(s);
        let used: usize = 16 * (self.current_block as usize)
            + self.current_pos_in_buffered_data as usize;
        if frame.len() > CAPACITY - used {
            return Err(TagError::CapacityExceeded);
        }
        let _ = self.write(frame.as_slice(), commits);
        self.flush(commits);
        Ok(())
    }
}

} // verus!
