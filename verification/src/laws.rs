use vstd::prelude::*;
use crate::layout::data_blocks;
use crate::reader::ReaderView;
use crate::session::{
    freshly_authenticated, holding, released, Command, Phase, ReadSession, WriteSession,
};
use crate::writer::{zero_padded, WriterView};

verus! {

/// A writer's view is valid where it describes a writer that holds its
/// invariant.
pub open spec fn valid_writer(w: WriterView) -> bool {
    &&& 0 <= w.block <= 9
    &&& w.staged.len() < 16
    &&& w.block == 9 ==> w.staged.len() == 0
}

/// With nothing staged, a write of exactly sixteen bytes commits exactly
/// one block, those sixteen bytes, and leaves nothing staged. A write of
/// one to fifteen bytes commits nothing; the flush that follows commits
/// exactly one block, the bytes zero-padded.
pub proof fn lemma_block_accounting(w: WriterView, buf: Seq<u8>)
    requires
        valid_writer(w),
        w.block < 9,
        w.staged.len() == 0,
    ensures
        buf.len() == 16 ==> w.write_log(buf) == seq![(data_blocks()[w.block], buf)] && w.written(
            buf,
        ).staged.len() == 0 && w.written(buf).flush_log().len() == 0,
        1 <= buf.len() <= 15 ==> w.write_log(buf).len() == 0 && w.written(buf).flush_log()
            == seq![(data_blocks()[w.block], zero_padded(buf))],
{
    assert(w.staged + buf =~= buf);
    if buf.len() == 16 {
        assert(buf.subrange(0, 16) =~= buf);
        assert(w.write_log(buf) =~= seq![(data_blocks()[w.block], buf)]);
    }
    if 1 <= buf.len() <= 15 {
        assert(w.written(buf).staged =~= buf);
    }
}

/// A flush right after a flush commits nothing and changes nothing.
pub proof fn lemma_flush_idempotent(w: WriterView)
    requires
        valid_writer(w),
    ensures
        w.flushed().flush_log().len() == 0,
        w.flushed().flushed() == w.flushed(),
        valid_writer(w.flushed()),
{
}

/// Writes that are not parted by a flush never take more than the tag
/// holds: a write fits exactly if the bytes written so far and its own are
/// at most 144 together, and each write that fits adds its length to the
/// count. One that does not fit ends at the last block with nothing
/// staged, having committed only the blocks that were left.
pub proof fn lemma_capacity_boundary(w: WriterView, buf: Seq<u8>)
    requires
        valid_writer(w),
    ensures
        valid_writer(w.written(buf)),
        w.fits(buf) ==> w.written(buf).used() == w.used() + buf.len(),
        !w.fits(buf) ==> w.written(buf).block == 9 && w.written(buf).staged.len() == 0
            && w.write_log(buf).len() == 9 - w.block,
        forall|i: int|
            0 <= i < w.write_log(buf).len() ==> (#[trigger] w.write_log(buf)[i]).0 == data_blocks()[w.block
                + i],
{
}

/// Two writes with no flush between them commit what one write of both
/// buffers commits, and leave the writer as that one write does.
pub proof fn lemma_write_twice(w: WriterView, a: Seq<u8>, b: Seq<u8>)
    requires
        valid_writer(w),
        w.fits(a + b),
    ensures
        w.fits(a),
        w.written(a).fits(b),
        w.written(a).written(b) == w.written(a + b),
        w.write_log(a) + w.written(a).write_log(b) == w.write_log(a + b),
{
    let mid = w.written(a);
    let whole = w.staged + (a + b);
    let first = w.write_count(a);
    assert(mid.staged + b =~= whole.subrange(16 * first, whole.len() as int));
    assert(w.write_count(a + b) == first + mid.write_count(b));
    assert(mid.written(b).staged =~= w.written(a + b).staged);
    assert forall|i: int| 0 <= i < w.write_log(a + b).len() implies (w.write_log(a)
        + mid.write_log(b))[i] == w.write_log(a + b)[i] by {
        if i < first {
            assert((w.staged + a).subrange(16 * i, 16 * i + 16) =~= whole.subrange(
                16 * i,
                16 * i + 16,
            ));
        } else {
            let k = i - first;
            assert((mid.staged + b).subrange(16 * k, 16 * k + 16) =~= whole.subrange(
                16 * i,
                16 * i + 16,
            ));
        }
    }
    assert(w.write_log(a) + mid.write_log(b) =~= w.write_log(a + b));
}

/// Whatever a read session has asked for so far, every fetch directly
/// follows the authentication of its own block with the session's key;
/// and a session that is over has halted the tag and cleared the
/// cryptographic state as the last two things it asked for, and asked for
/// neither before.
pub proof fn lemma_read_session_protocol(s: ReadSession)
    requires
        s.wf(),
    ensures
        freshly_authenticated(s.issued@, s.key),
        s.phase == Phase::Finished ==> released(s.issued@) && holding(
            s.issued@.subrange(0, s.issued@.len() - 2),
        ),
        forall|i: int|
            0 <= i < s.issued@.len() && (#[trigger] s.issued@[i]) is Fetch ==> i > 0 && s.issued@[i
                - 1] == (Command::Authenticate { address: s.issued@[i]->Fetch_address, key: s.key }),
{
    reveal(freshly_authenticated);
}

/// The same of a write session and its commits; and a write session that
/// is over without a failure has committed every block.
pub proof fn lemma_write_session_protocol(s: WriteSession)
    requires
        s.wf(),
    ensures
        freshly_authenticated(s.issued@, s.key),
        s.phase == Phase::Finished ==> released(s.issued@) && holding(
            s.issued@.subrange(0, s.issued@.len() - 2),
        ),
        s.phase == Phase::Finished && s.failure.is_none() ==> s.next == s.commits@.len(),
        forall|i: int|
            0 <= i < s.issued@.len() && (#[trigger] s.issued@[i]) is Commit ==> i > 0 && s.issued@[i
                - 1] == (Command::Authenticate { address: s.issued@[i]->Commit_address, key: s.key }),
{
    reveal(freshly_authenticated);
}

/// At the end of the stream a read moves nothing and takes nothing, so
/// every read that follows finds the same end of the stream.
pub proof fn lemma_end_of_stream(r: ReaderView, requested: int)
    requires
        r.at_end(),
    ensures
        r.advanced(requested) == r,
        r.advanced(requested).at_end(),
{
}

} // verus!
