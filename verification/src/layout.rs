use vstd::prelude::*;
use crate::error::TagError;

verus! {

/// Number of usable data blocks on a tag.
pub const N_BLOCKS: u8 = 9;

/// Size of one block in bytes.
pub const N_BLOCK_SIZE: u8 = 16;

/// Usable bytes on a tag: every data block, in full.
pub const CAPACITY: usize = 144;

/// Length of the key that authenticates a block.
pub const KEY_LEN: usize = 6;

/// The physical addresses of the usable blocks, in stream order. Sector
/// trailers (every fourth block) hold key material and are left out.
pub open spec fn data_blocks() -> Seq<u8> {
    seq![8u8, 9u8, 10u8, 12u8, 13u8, 14u8, 16u8, 17u8, 18u8]
}

/// The factory-default key, still accepted by tags written earlier.
pub fn default_key() -> (key: [u8; 6])
    ensures
        forall|i: int| 0 <= i < 6 ==> key[i] == 0xffu8,
{
    [0xffu8; 6]
}

/// The physical address of the `index`-th usable block.
///
/// An index past the last usable block is refused; it never wraps round to
/// the first one.
pub fn block_address(index: u8) -> (r: Result<u8, TagError>)
    ensures
        index < N_BLOCKS ==> r == Ok::<u8, TagError>(data_blocks()[index as int]),
        index >= N_BLOCKS ==> r == Err::<u8, TagError>(TagError::CapacityExceeded),
{
    if index < 3 {
        Ok(8 + index)
    } else if index < 6 {
        Ok(9 + index)
    } else if index < 9 {
        Ok(10 + index)
    } else {
        Err(TagError::CapacityExceeded)
    }
}

/// The stream position of the block at a physical address, if it is usable.
pub open spec fn index_of_address(address: u8) -> Option<int> {
    if 8 <= address <= 10 {
        Some(address - 8)
    } else if 12 <= address <= 14 {
        Some(address - 9)
    } else if 16 <= address <= 18 {
        Some(address - 10)
    } else {
        None
    }
}

/// The stream position of the block at a physical address; `None` for a
/// sector trailer and for every other block outside the usable ones.
pub fn block_index(address: u8) -> (r: Option<u8>)
    ensures
        match index_of_address(address) {
            Some(i) => r == Some(i as u8),
            None => r.is_none(),
        },
{
    if 8 <= address && address <= 10 {
        Some(address - 8)
    } else if 12 <= address && address <= 14 {
        Some(address - 9)
    } else if 16 <= address && address <= 18 {
        Some(address - 10)
    } else {
        None
    }
}

/// Usable addresses and stream positions correspond one to one.
pub proof fn lemma_address_index(index: int)
    requires
        0 <= index < 9,
    ensures
        index_of_address(data_blocks()[index]) == Some(index),
        data_blocks()[index] % 4 != 3,
{
}

} // verus!
