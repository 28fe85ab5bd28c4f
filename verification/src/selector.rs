//! Selection of the active block among the two that a save buffer holds.
//!
//! Each block is ranked by the save index of its last section, read from the
//! raw bytes before any structural check. The block with the greater index is
//! the active one; where both are equal, it is the second.

use vstd::prelude::*;
use vstd::slice::slice_subrange;

use crate::bytes::read_u32;
use crate::layout::{
    block_at, save_index_at, BLOCK_SIZE, SAVE_INDEX_OFFSET, SAVE_SIZE, SECOND_BLOCK_OFFSET,
    SECTION_COUNT, SECTION_SIZE,
};

verus! {

/// The save index by which a block is ranked: that of its last section.
pub open spec fn block_save_index(block: Seq<u8>) -> int {
    save_index_at(block, SECTION_COUNT - 1)
}

/// Where the active block starts in a save buffer.
pub open spec fn active_block_offset(bytes: Seq<u8>) -> int {
    if block_save_index(block_at(bytes, 0)) > block_save_index(
        block_at(bytes, SECOND_BLOCK_OFFSET as int),
    ) {
        0
    } else {
        SECOND_BLOCK_OFFSET as int
    }
}

/// The active block of a save buffer.
pub open spec fn active_block(bytes: Seq<u8>) -> Seq<u8> {
    block_at(bytes, active_block_offset(bytes))
}

/// The active block carries the greater of the two save indices. It is the
/// first block exactly if the first index is strictly greater.
pub proof fn lemma_active_block_has_greatest_index(bytes: Seq<u8>)
    ensures
        block_save_index(active_block(bytes)) >= block_save_index(block_at(bytes, 0)),
        block_save_index(active_block(bytes)) >= block_save_index(
            block_at(bytes, SECOND_BLOCK_OFFSET as int),
        ),
        active_block_offset(bytes) == 0 <==> block_save_index(block_at(bytes, 0))
            > block_save_index(block_at(bytes, SECOND_BLOCK_OFFSET as int)),
        active_block_offset(bytes) == 0 || active_block_offset(bytes) == SECOND_BLOCK_OFFSET,
{
}

/// Which half of the buffer a block stands in does not matter: two buffers
/// that hold the same two blocks in opposite order have the same active
/// block, unless the save indices tie.
pub proof fn lemma_selection_ignores_position(x: Seq<u8>, y: Seq<u8>)
    requires
        block_at(x, 0) == block_at(y, SECOND_BLOCK_OFFSET as int),
        block_at(x, SECOND_BLOCK_OFFSET as int) == block_at(y, 0),
        block_save_index(block_at(x, 0)) != block_save_index(
            block_at(x, SECOND_BLOCK_OFFSET as int),
        ),
    ensures
        active_block(x) == active_block(y),
{
}

/// Reads the save index by which a block is ranked.
fn read_block_save_index(block: &[u8]) -> (index: u32)
    requires
        block@.len() == BLOCK_SIZE,
    ensures
        index == block_save_index(block@),
{
    let last = slice_subrange(
        block,
        (SECTION_COUNT - 1) * SECTION_SIZE,
        (SECTION_COUNT - 1) * SECTION_SIZE + SECTION_SIZE,
    );
    read_u32(slice_subrange(last, SAVE_INDEX_OFFSET, SAVE_INDEX_OFFSET + 4))
}

/// Picks the active block of a save buffer and returns its offset in the
/// buffer together with its bytes.
pub fn select_block<'a>(buf: &'a [u8]) -> (selected: (usize, &'a [u8]))
    requires
        buf@.len() >= SAVE_SIZE,
    ensures
        selected.0 == active_block_offset(buf@),
        selected.1@ == active_block(buf@),
{
    let block_a = slice_subrange(buf, 0, BLOCK_SIZE);
    let block_b = slice_subrange(buf, SECOND_BLOCK_OFFSET, SECOND_BLOCK_OFFSET + BLOCK_SIZE);

    let save_index_a = read_block_save_index(block_a);
    let save_index_b = read_block_save_index(block_b);

    if save_index_a > save_index_b {
        (0, block_a)
    } else {
        (SECOND_BLOCK_OFFSET, block_b)
    }
}

} // verus!
