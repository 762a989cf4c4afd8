use vstd::prelude::*;
use vstd::utf8::encode_utf8;
use crate::codec::{framed, unframed, SCRATCH_LEN};
use crate::layout::{data_blocks, index_of_address, lemma_address_index};
use crate::writer::{full_blocks, zero_padded, WriterView};

verus! {

/// The usable bytes of a tag after one more block is stored. A block whose
/// address is not usable leaves them as they are.
pub open spec fn put(image: Seq<u8>, address: u8, data: Seq<u8>) -> Seq<u8> {
    match index_of_address(address) {
        Some(index) => Seq::new(
            image.len(),
            |j: int|
                if 16 * index <= j < 16 * index + 16 {
                    data[j - 16 * index]
                } else {
                    image[j]
                },
        ),
        None => image,
    }
}

/// The usable bytes of a tag after the blocks of `log` are stored in order.
pub open spec fn stored(image: Seq<u8>, log: Seq<(u8, Seq<u8>)>) -> Seq<u8>
    decreases log.len(),
{
    if log.len() == 0 {
        image
    } else {
        put(stored(image, log.drop_last()), log.last().0, log.last().1)
    }
}

/// `image` with `bytes` laid over its front, zero-padded up to the next
/// block boundary; the blocks behind are untouched.
pub open spec fn overlaid(image: Seq<u8>, bytes: Seq<u8>) -> Seq<u8> {
    let end = 16 * ((bytes.len() + 15) / 16);
    Seq::new(
        image.len(),
        |j: int|
            if j < bytes.len() {
                bytes[j]
            } else if j < end {
                0u8
            } else {
                image[j]
            },
    )
}

/// Storing the first `count` full chunks of `bytes`, from the first usable
/// block on, puts those chunks at the front of the image.
pub proof fn lemma_stored_full_blocks(image: Seq<u8>, bytes: Seq<u8>, count: int)
    requires
        image.len() == 144,
        0 <= count <= 9,
        16 * count <= bytes.len(),
    ensures
        stored(image, full_blocks(0, bytes, count)) == Seq::new(
            144,
            |j: int|
                if j < 16 * count {
                    bytes[j]
                } else {
                    image[j]
                },
        ),
    decreases count,
{
    let log = full_blocks(0, bytes, count);
    let goal = Seq::new(
        144,
        |j: int|
            if j < 16 * count {
                bytes[j]
            } else {
                image[j]
            },
    );
    if count == 0 {
        assert(stored(image, log) =~= goal);
    } else {
        lemma_stored_full_blocks(image, bytes, count - 1);
        lemma_address_index(count - 1);
        assert(log.drop_last() =~= full_blocks(0, bytes, count - 1));
        assert(log.last() == (data_blocks()[count - 1], bytes.subrange(16 * (count - 1), 16 * count)));
        assert(stored(image, log) =~= goal);
    }
}

/// Writing `bytes` through a fresh writer and flushing, then storing what
/// was handed out, lays `bytes` over the front of the image.
pub proof fn lemma_stored_stream(image: Seq<u8>, bytes: Seq<u8>)
    requires
        image.len() == 144,
        bytes.len() <= 144,
    ensures
        ({
            let fresh = WriterView { block: 0, staged: Seq::empty() };
            stored(image, fresh.write_log(bytes) + fresh.written(bytes).flush_log()) == overlaid(
                image,
                bytes,
            )
        }),
{
    let fresh = WriterView { block: 0, staged: Seq::empty() };
    let count = bytes.len() as int / 16;
    assert(fresh.staged + bytes =~= bytes);
    assert(fresh.write_count(bytes) == count);
    let first = fresh.write_log(bytes);
    let last = fresh.written(bytes).flush_log();
    lemma_stored_full_blocks(image, bytes, count);
    let rest = bytes.subrange(16 * count, bytes.len() as int);
    assert(fresh.written(bytes).staged == rest);
    if rest.len() > 0 {
        lemma_address_index(count);
        assert((first + last).drop_last() =~= first);
        assert((first + last).last() == (data_blocks()[count], zero_padded(rest)));
        assert(stored(image, first + last) =~= overlaid(image, bytes));
    } else {
        assert(first + last =~= first);
        assert(stored(image, first + last) =~= overlaid(image, bytes));
    }
}

/// A string that was framed and laid over the front of a tag decodes to
/// itself, whatever the tag held before and still holds behind it.
pub proof fn lemma_round_trip(image: Seq<u8>, text: Seq<char>)
    requires
        image.len() == 144,
        framed(encode_utf8(text)).len() <= 144,
    ensures
        unframed(overlaid(image, framed(encode_utf8(text))), SCRATCH_LEN as nat) == Some(text),
{
    let payload = encode_utf8(text);
    let frame = framed(payload);
    let bytes = overlaid(image, frame);
    vstd::utf8::encode_utf8_valid_utf8(text);
    vstd::utf8::encode_utf8_decode_utf8(text);
    let head: int = if payload.len() < 32 {
        1
    } else {
        2
    };
    assert(bytes[0] == frame[0]);
    assert(payload.len() >= 32 ==> bytes[1] == frame[1]);
    assert(bytes.subrange(head, head + payload.len()) =~= payload);
}

} // verus!
