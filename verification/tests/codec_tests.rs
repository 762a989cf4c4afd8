use tagstream::codec::{decode_string, frame_wants_more};
use tagstream::error::TagError;
use tagstream::layout::default_key;
use tagstream::session::{ReadSession, WriteSession};
use tagstream::reader::{Fetched, TagReader};
use tagstream::tag::{SimulatedTag, Tag};
use tagstream::writer::{BlockWrite, TagWriter};

fn image_of(tag: &SimulatedTag) -> Vec<u8> {
    tag.blocks.iter().flat_map(|b| b.iter().copied()).collect()
}

#[test]
fn hello_is_one_block_of_six_bytes_and_ten_zeros() {
    let mut w = TagWriter::new();
    let mut commits: Vec<BlockWrite> = Vec::new();
    assert_eq!(w.write_string("hello", &mut commits), Ok(()));
    assert_eq!(commits.len(), 1);
    assert_eq!(commits[0].address, 8);
    assert_eq!(
        commits[0].data,
        [0xa5, b'h', b'e', b'l', b'l', b'o', 0, 0, 0, 0, 0, 0, 0, 0, 0, 0]
    );
    assert_eq!(w.current_block, 1);
    assert_eq!(w.current_pos_in_buffered_data, 0);

    let mut tag = SimulatedTag::new();
    assert_eq!(tag.serve_write(WriteSession::new(commits.clone(), default_key())), Ok(()));
    assert_eq!(tag.read_string(), Ok("hello".to_string()));
}

#[test]
fn hello_round_trips_on_a_simulated_tag() {
    let mut tag = SimulatedTag::new();
    assert_eq!(tag.write_string("hello"), Ok(()));
    assert_eq!(tag.blocks[0], [0xa5, b'h', b'e', b'l', b'l', b'o', 0, 0, 0, 0, 0, 0, 0, 0, 0, 0]);
    assert!(tag.blocks[1..].iter().all(|b| *b == [0u8; 16]));
    assert_eq!(tag.read_string(), Ok("hello".to_string()));
}

#[test]
fn strings_of_every_length_that_fits_round_trip() {
    for n in 0..=142usize {
        let s: String = (0..n).map(|i| (b'a' + (i % 26) as u8) as char).collect();
        let mut tag = SimulatedTag::new();
        assert_eq!(tag.write_string(&s), Ok(()), "length {}", n);
        assert_eq!(tag.read_string(), Ok(s), "length {}", n);
    }
}

#[test]
fn header_grows_at_thirty_two_bytes() {
    let short: String = "x".repeat(31);
    let long: String = "x".repeat(32);
    let mut tag = SimulatedTag::new();
    assert_eq!(tag.write_string(&short), Ok(()));
    assert_eq!(tag.blocks[0][0], 0xbf);
    assert_eq!(tag.blocks[0][1], b'x');
    let mut tag = SimulatedTag::new();
    assert_eq!(tag.write_string(&long), Ok(()));
    assert_eq!(tag.blocks[0][0], 0xd9);
    assert_eq!(tag.blocks[0][1], 32);
    assert_eq!(tag.blocks[0][2], b'x');
    assert_eq!(tag.read_string(), Ok(long));
}

#[test]
fn non_ascii_round_trips() {
    let s = "Grüße, 世界! 🎵";
    let mut tag = SimulatedTag::new();
    assert_eq!(tag.write_string(s), Ok(()));
    assert_eq!(tag.read_string(), Ok(s.to_string()));
}

#[test]
fn a_shorter_string_over_a_longer_one_still_decodes() {
    let mut tag = SimulatedTag::new();
    assert_eq!(tag.write_string(&"z".repeat(100)), Ok(()));
    assert_eq!(tag.write_string("spotify:album:1"), Ok(()));
    assert_eq!(tag.read_string(), Ok("spotify:album:1".to_string()));
    assert_eq!(tag.blocks[1], [b'z'; 16]);
}

#[test]
fn a_frame_longer_than_the_tag_is_refused_whole() {
    let mut tag = SimulatedTag::new();
    assert_eq!(tag.write_string("kept"), Ok(()));
    let before = image_of(&tag);
    assert_eq!(tag.write_string(&"y".repeat(143)), Err(TagError::CapacityExceeded));
    assert_eq!(image_of(&tag), before);
    assert_eq!(tag.write_string(&"y".repeat(5000)), Err(TagError::CapacityExceeded));
    assert_eq!(image_of(&tag), before);
    assert_eq!(tag.read_string(), Ok("kept".to_string()));

    let mut w = TagWriter::new();
    let mut commits: Vec<BlockWrite> = Vec::new();
    assert_eq!(w.write_string(&"y".repeat(143), &mut commits), Err(TagError::CapacityExceeded));
    assert!(commits.is_empty());
    assert_eq!((w.current_block, w.current_pos_in_buffered_data), (0, 0));
}

#[test]
fn write_string_behind_earlier_bytes_counts_them() {
    let mut w = TagWriter::new();
    let mut commits: Vec<BlockWrite> = Vec::new();
    assert_eq!(w.write(&[0u8; 130], &mut commits), Ok(130));
    assert_eq!(w.write_string(&"q".repeat(14), &mut commits), Err(TagError::CapacityExceeded));
    assert_eq!(commits.len(), 8);
    assert_eq!((w.current_block, w.current_pos_in_buffered_data), (8, 2));
    assert_eq!(w.write_string(&"q".repeat(13), &mut commits), Ok(()));
    assert_eq!(commits.len(), 9);
    assert_eq!(commits[8].data[0], 0);
    assert_eq!(commits[8].data[2], 0xa0 + 13);
    assert_eq!((w.current_block, w.current_pos_in_buffered_data), (9, 0));
}

#[test]
fn decode_accepts_every_string_header() {
    assert_eq!(decode_string(&[0xa0]), Ok(String::new()));
    assert_eq!(decode_string(&[0xa2, b'o', b'k', 9, 9]), Ok("ok".to_string()));
    assert_eq!(decode_string(&[0xd9, 2, b'o', b'k']), Ok("ok".to_string()));
    assert_eq!(decode_string(&[0xda, 0, 2, b'o', b'k']), Ok("ok".to_string()));
    assert_eq!(decode_string(&[0xdb, 0, 0, 0, 2, b'o', b'k']), Ok("ok".to_string()));
    let mut long = vec![0xda, 1, 0];
    long.extend(std::iter::repeat(b'k').take(256));
    assert_eq!(decode_string(&long), Ok("k".repeat(256)));
}

#[test]
fn decode_refuses_what_is_not_a_whole_frame() {
    assert_eq!(decode_string(&[]), Err(TagError::Decode));
    assert_eq!(decode_string(&[0x00, 1, 2]), Err(TagError::Decode));
    assert_eq!(decode_string(&[0xc4, 1, b'a']), Err(TagError::Decode));
    assert_eq!(decode_string(&[0xd9]), Err(TagError::Decode));
    assert_eq!(decode_string(&[0xda, 0]), Err(TagError::Decode));
    assert_eq!(decode_string(&[0xdb, 0, 0, 0]), Err(TagError::Decode));
    assert_eq!(decode_string(&[0xa3, b'a', b'b']), Err(TagError::Decode));
    assert_eq!(decode_string(&[0xa2, 0xff, 0xfe]), Err(TagError::Decode));
}

#[test]
fn decode_refuses_a_payload_beyond_the_scratch_room() {
    let mut big = vec![0xda, 4, 1];
    big.extend(std::iter::repeat(b'a').take(1025));
    assert_eq!(decode_string(&big), Err(TagError::Decode));
    let mut edge = vec![0xda, 4, 0];
    edge.extend(std::iter::repeat(b'a').take(1024));
    assert_eq!(decode_string(&edge), Ok("a".repeat(1024)));
}

#[test]
fn a_tag_that_announces_more_than_it_holds_is_a_decode_error() {
    let mut tag = SimulatedTag::new();
    tag.blocks[0][0] = 0xd9;
    tag.blocks[0][1] = 143;
    assert_eq!(tag.read_string(), Err(TagError::Decode));
    tag.blocks[0][1] = 142;
    assert_eq!(tag.read_string(), Ok("\0".repeat(142)));
}

#[test]
fn a_blank_tag_is_a_decode_error() {
    let tag = SimulatedTag::new();
    assert_eq!(tag.read_string(), Err(TagError::Decode));
}

#[test]
fn the_simulated_tag_refuses_sector_trailers() {
    let mut tag = SimulatedTag::new();
    let good = BlockWrite { address: 9, data: [7u8; 16] };
    let bad = BlockWrite { address: 11, data: [8u8; 16] };
    let late = BlockWrite { address: 12, data: [9u8; 16] };
    assert_eq!(tag.commit(&bad), Err(TagError::Io));
    assert_eq!(image_of(&tag), vec![0u8; 144]);
    let session = WriteSession::new(vec![good, bad, late], default_key());
    assert_eq!(tag.serve_write(session), Err(TagError::Authentication));
    assert_eq!(tag.blocks[1], [7u8; 16]);
    assert_eq!(tag.blocks[3], [0u8; 16]);
    assert!(matches!(tag.fetch(11), Fetched::TransferFailed));
    assert!(matches!(tag.fetch(9), Fetched::Block(b) if b == [7u8; 16]));
}

#[test]
fn a_reader_reads_the_rest_of_the_stream() {
    let mut tag = SimulatedTag::new();
    assert_eq!(tag.write_string("abc"), Ok(()));
    let mut r = TagReader::new();
    let mut skip = [0u8; 1];
    assert_eq!(r.read(&tag.fetch(8), &mut skip), Ok(1));
    assert_eq!(skip, [0xa3]);
    let rest = r.read_to_end(&tag).unwrap();
    assert_eq!(rest.len(), 143);
    assert_eq!(&rest[..3], b"abc");
    assert_eq!(r.current_block, 9);
    assert_eq!(r.read_to_end(&tag), Ok(vec![]));
}

#[test]
fn a_detected_tag_hands_out_fresh_streams() {
    let tag = Tag { uid: vec![1, 2, 3, 4] };
    let r = tag.new_reader();
    assert_eq!((r.current_block, r.current_pos_in_block), (0, 0));
    let w = tag.new_writer();
    assert_eq!((w.current_block, w.current_pos_in_buffered_data), (0, 0));
    let mut sim = SimulatedTag::new();
    assert_eq!(sim.write_string("via tag"), Ok(()));
    let mut r = tag.new_reader();
    assert_eq!(r.read_string(&sim), Ok("via tag".to_string()));
}

#[test]
fn a_string_is_read_in_as_few_blocks_as_it_takes() {
    let mut tag = SimulatedTag::new();
    assert_eq!(tag.write_string("hello"), Ok(()));
    let mut r = TagReader::new();
    assert_eq!(r.read_string(&tag), Ok("hello".to_string()));
    assert_eq!((r.current_block, r.current_pos_in_block), (1, 0));

    let long = "m".repeat(40);
    assert_eq!(tag.write_string(&long), Ok(()));
    let mut r = TagReader::new();
    assert_eq!(r.read_string(&tag), Ok(long));
    assert_eq!((r.current_block, r.current_pos_in_block), (3, 0));

    let blank = SimulatedTag::new();
    let mut r = TagReader::new();
    assert_eq!(r.read_string(&blank), Err(TagError::Decode));
    assert_eq!((r.current_block, r.current_pos_in_block), (1, 0));
}

#[test]
fn a_string_can_be_read_from_the_middle_of_a_block() {
    let mut w = TagWriter::new();
    let mut commits: Vec<BlockWrite> = Vec::new();
    assert_eq!(w.write(&[1, 2, 3], &mut commits), Ok(3));
    assert_eq!(w.write_string("offset by three, and longer than a block", &mut commits), Ok(()));
    let mut tag = SimulatedTag::new();
    assert_eq!(tag.serve_write(WriteSession::new(commits.clone(), default_key())), Ok(()));
    let mut r = TagReader::new();
    let mut skip = [0u8; 3];
    assert_eq!(r.read(&tag.fetch(8), &mut skip), Ok(3));
    assert_eq!(r.read_string(&tag), Ok("offset by three, and longer than a block".to_string()));
    assert_eq!((r.current_block, r.current_pos_in_block), (3, 0));
}

#[test]
fn reading_stops_at_the_end_of_the_stream() {
    let mut tag = SimulatedTag::new();
    tag.blocks[0][0] = 0xda;
    tag.blocks[0][1] = 0xff;
    tag.blocks[0][2] = 0xff;
    let mut r = TagReader::new();
    assert_eq!(r.read_string(&tag), Err(TagError::Decode));
    assert_eq!((r.current_block, r.current_pos_in_block), (9, 0));
    assert_eq!(r.read_string(&tag), Err(TagError::Decode));
    assert_eq!((r.current_block, r.current_pos_in_block), (9, 0));
}

#[test]
fn a_front_wants_more_until_its_frame_is_whole() {
    assert!(frame_wants_more(&[]));
    assert!(!frame_wants_more(&[0xa0]));
    assert!(frame_wants_more(&[0xa1]));
    assert!(!frame_wants_more(&[0xa1, b'x']));
    assert!(!frame_wants_more(&[0xa1, b'x', b'y']));
    assert!(frame_wants_more(&[0xd9]));
    assert!(frame_wants_more(&[0xd9, 2, b'x']));
    assert!(!frame_wants_more(&[0xd9, 2, b'x', b'y']));
    assert!(frame_wants_more(&[0xda, 0]));
    assert!(frame_wants_more(&[0xda, 1, 0]));
    assert!(!frame_wants_more(&[0xda, 0, 0]));
    assert!(frame_wants_more(&[0xdb, 0, 0, 0]));
    assert!(frame_wants_more(&[0xdb, 0, 0, 0, 1]));
    assert!(!frame_wants_more(&[0xdb, 0, 0, 0, 1, b'x']));
    assert!(!frame_wants_more(&[0x00]));
    assert!(!frame_wants_more(&[0xc0, 1, 2]));
}

#[test]
fn a_served_read_session_reads_what_the_tag_holds() {
    let mut tag = SimulatedTag::new();
    assert_eq!(tag.serve_read(ReadSession::new(default_key())), Err(TagError::Decode));
    assert_eq!(tag.write_string("served"), Ok(()));
    let before = image_of(&tag);
    assert_eq!(tag.serve_read(ReadSession::new(default_key())), Ok("served".to_string()));
    assert_eq!(tag.serve_read(ReadSession::new([0u8; 6])), Ok("served".to_string()));
    assert_eq!(image_of(&tag), before);
    assert_eq!(tag.read_string(), Ok("served".to_string()));
}

#[test]
fn a_served_write_session_stores_its_blocks_in_order() {
    let mut tag = SimulatedTag::new();
    let first = BlockWrite { address: 8, data: [1u8; 16] };
    let again = BlockWrite { address: 8, data: [2u8; 16] };
    let other = BlockWrite { address: 18, data: [3u8; 16] };
    assert_eq!(tag.serve_write(WriteSession::new(vec![first, again, other], default_key())), Ok(()));
    assert_eq!(tag.blocks[0], [2u8; 16]);
    assert_eq!(tag.blocks[8], [3u8; 16]);
    assert_eq!(tag.serve_write(WriteSession::new(vec![], default_key())), Ok(()));
    assert_eq!(tag.blocks[0], [2u8; 16]);
}
