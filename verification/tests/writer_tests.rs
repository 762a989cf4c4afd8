use tagstream::error::TagError;
use tagstream::writer::{BlockWrite, TagWriter};

fn bytes(n: usize, from: u8) -> Vec<u8> {
    (0..n).map(|i| from.wrapping_add(i as u8)).collect()
}

#[test]
fn sixteen_bytes_commit_one_block_and_stage_nothing() {
    let mut w = TagWriter::new();
    let mut commits: Vec<BlockWrite> = Vec::new();
    let data = bytes(16, 1);
    assert_eq!(w.write(&data, &mut commits), Ok(16));
    assert_eq!(commits.len(), 1);
    assert_eq!(commits[0].address, 8);
    assert_eq!(commits[0].data.to_vec(), data);
    assert_eq!(w.current_pos_in_buffered_data, 0);
    assert_eq!(w.current_block, 1);
    w.flush(&mut commits);
    assert_eq!(commits.len(), 1);
}

#[test]
fn short_write_commits_nothing_until_flush() {
    for n in 1..16usize {
        let mut w = TagWriter::new();
        let mut commits: Vec<BlockWrite> = Vec::new();
        let data = bytes(n, 7);
        assert_eq!(w.write(&data, &mut commits), Ok(n));
        assert_eq!(commits.len(), 0);
        assert_eq!(w.current_block, 0);
        assert_eq!(w.current_pos_in_buffered_data as usize, n);
        w.flush(&mut commits);
        assert_eq!(commits.len(), 1);
        assert_eq!(commits[0].address, 8);
        assert_eq!(&commits[0].data[..n], &data[..]);
        assert!(commits[0].data[n..].iter().all(|b| *b == 0));
        assert_eq!(w.current_block, 1);
        assert_eq!(w.current_pos_in_buffered_data, 0);
    }
}

#[test]
fn second_flush_commits_nothing() {
    let mut w = TagWriter::new();
    let mut commits: Vec<BlockWrite> = Vec::new();
    assert_eq!(w.write(&[1, 2, 3], &mut commits), Ok(3));
    w.flush(&mut commits);
    assert_eq!(commits.len(), 1);
    w.flush(&mut commits);
    assert_eq!(commits.len(), 1);
    assert_eq!(w.current_block, 1);
}

#[test]
fn flush_of_fresh_writer_is_a_no_op() {
    let mut w = TagWriter::new();
    let mut commits: Vec<BlockWrite> = Vec::new();
    w.flush(&mut commits);
    assert!(commits.is_empty());
    assert_eq!(w.current_block, 0);
}

#[test]
fn empty_write_changes_nothing() {
    let mut w = TagWriter::new();
    let mut commits: Vec<BlockWrite> = Vec::new();
    assert_eq!(w.write(&[], &mut commits), Ok(0));
    assert!(commits.is_empty());
    assert_eq!(w.current_block, 0);
    assert_eq!(w.current_pos_in_buffered_data, 0);
}

#[test]
fn staged_bytes_are_topped_up_first() {
    let mut w = TagWriter::new();
    let mut commits: Vec<BlockWrite> = Vec::new();
    let data = bytes(40, 0);
    assert_eq!(w.write(&data[..5], &mut commits), Ok(5));
    assert_eq!(w.write(&data[5..], &mut commits), Ok(35));
    assert_eq!(commits.len(), 2);
    assert_eq!(commits[0].address, 8);
    assert_eq!(commits[1].address, 9);
    assert_eq!(commits[0].data.to_vec(), data[..16].to_vec());
    assert_eq!(commits[1].data.to_vec(), data[16..32].to_vec());
    assert_eq!(w.current_block, 2);
    assert_eq!(w.current_pos_in_buffered_data, 8);
    assert_eq!(&w.buffered_data[..8], &data[32..]);
}

#[test]
fn split_writes_commit_what_one_write_commits() {
    let data = bytes(100, 3);
    let mut whole = TagWriter::new();
    let mut whole_commits: Vec<BlockWrite> = Vec::new();
    assert_eq!(whole.write(&data, &mut whole_commits), Ok(100));
    for cut in [0usize, 1, 15, 16, 17, 50, 99, 100] {
        let mut w = TagWriter::new();
        let mut commits: Vec<BlockWrite> = Vec::new();
        assert_eq!(w.write(&data[..cut], &mut commits), Ok(cut));
        assert_eq!(w.write(&data[cut..], &mut commits), Ok(100 - cut));
        assert_eq!(commits.len(), whole_commits.len());
        for (a, b) in commits.iter().zip(whole_commits.iter()) {
            assert_eq!(a.address, b.address);
            assert_eq!(a.data, b.data);
        }
        assert_eq!(w.current_block, whole.current_block);
        assert_eq!(w.current_pos_in_buffered_data, whole.current_pos_in_buffered_data);
    }
}

#[test]
fn full_tag_is_nine_blocks_at_the_usable_addresses() {
    let mut w = TagWriter::new();
    let mut commits: Vec<BlockWrite> = Vec::new();
    let data = bytes(144, 0);
    assert_eq!(w.write(&data, &mut commits), Ok(144));
    let addresses: Vec<u8> = commits.iter().map(|c| c.address).collect();
    assert_eq!(addresses, vec![8, 9, 10, 12, 13, 14, 16, 17, 18]);
    assert_eq!(w.current_block, 9);
    assert_eq!(w.current_pos_in_buffered_data, 0);
    assert_eq!(w.write(&[], &mut commits), Ok(0));
}

#[test]
fn one_byte_too_many_is_capacity_exceeded() {
    let mut w = TagWriter::new();
    let mut commits: Vec<BlockWrite> = Vec::new();
    let data = bytes(145, 0);
    assert_eq!(w.write(&data, &mut commits), Err(TagError::CapacityExceeded));
    assert_eq!(commits.len(), 9);
    assert!(commits.iter().all(|c| c.address != 0));
    assert_eq!(commits[8].address, 18);
    assert_eq!(w.current_block, 9);
    assert_eq!(w.current_pos_in_buffered_data, 0);
}

#[test]
fn writes_beyond_capacity_in_pieces_are_refused() {
    let mut w = TagWriter::new();
    let mut commits: Vec<BlockWrite> = Vec::new();
    assert_eq!(w.write(&bytes(100, 0), &mut commits), Ok(100));
    assert_eq!(w.write(&bytes(44, 100), &mut commits), Ok(44));
    assert_eq!(commits.len(), 9);
    assert_eq!(w.write(&[1], &mut commits), Err(TagError::CapacityExceeded));
    assert_eq!(commits.len(), 9);
}

#[test]
fn a_write_that_does_not_fit_keeps_the_blocks_it_handed_out() {
    let mut w = TagWriter::new();
    let mut commits: Vec<BlockWrite> = Vec::new();
    assert_eq!(w.write(&bytes(130, 0), &mut commits), Ok(130));
    assert_eq!(commits.len(), 8);
    assert_eq!(w.write(&bytes(20, 130), &mut commits), Err(TagError::CapacityExceeded));
    assert_eq!(commits.len(), 9);
    assert_eq!(commits[8].address, 18);
    assert_eq!(commits[8].data.to_vec(), bytes(16, 128));
    assert_eq!(w.current_block, 9);
}

#[test]
fn flushes_use_up_blocks() {
    let mut w = TagWriter::new();
    let mut commits: Vec<BlockWrite> = Vec::new();
    for _ in 0..9 {
        assert_eq!(w.write(&[9], &mut commits), Ok(1));
        w.flush(&mut commits);
    }
    assert_eq!(commits.len(), 9);
    assert_eq!(w.write(&[9], &mut commits), Err(TagError::CapacityExceeded));
    assert_eq!(commits.len(), 9);
}

#[test]
fn a_writer_with_bytes_staged_behind_the_last_block_is_not_valid() {
    assert!(TagWriter::new().is_valid());
    let at = |block: u8, pos: u8| TagWriter {
        current_block: block,
        buffered_data: [0u8; 16],
        current_pos_in_buffered_data: pos,
    };
    assert!(at(8, 15).is_valid());
    assert!(at(9, 0).is_valid());
    assert!(!at(9, 1).is_valid());
    assert!(!at(10, 0).is_valid());
    assert!(!at(0, 16).is_valid());
}
