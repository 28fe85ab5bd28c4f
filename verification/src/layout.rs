//! The fixed layout of a save buffer: two blocks of fourteen sections, each
//! section ending in a footer that holds its identifier and its save index.

use vstd::prelude::*;

use crate::bytes::{le_u16, le_u32};

verus! {

/// The least size of a game save in bytes.
pub const SAVE_SIZE: usize = 131072;

/// The size of a save block in bytes.
pub const BLOCK_SIZE: usize = 57344;

/// The size of a block section in bytes.
pub const SECTION_SIZE: usize = 4096;

/// The number of sections in a block.
pub const SECTION_COUNT: usize = 14;

/// Where the second block starts in a save buffer.
pub const SECOND_BLOCK_OFFSET: usize = 57344;

/// Where the 16 bit section identifier starts in a section.
pub const SECTION_ID_OFFSET: usize = 0x0FF4;

/// Where the 32 bit save index starts in a section.
pub const SAVE_INDEX_OFFSET: usize = 0x0FFC;

/// The identifier of the section that holds the trainer info.
pub const TRAINER_INFO_SECTION_ID: u16 = 0;

/// The offset of the player gender value in the trainer info section.
pub const PLAYER_GENDER_OFFSET: usize = 0x0008;

/// The block that starts at `offset` in a save buffer.
pub open spec fn block_at(bytes: Seq<u8>, offset: int) -> Seq<u8> {
    bytes.subrange(offset, offset + BLOCK_SIZE)
}

/// The section at position `k` of a block, positions counted from zero.
pub open spec fn section_at(block: Seq<u8>, k: int) -> Seq<u8> {
    block.subrange(k * SECTION_SIZE, k * SECTION_SIZE + SECTION_SIZE)
}

/// The identifier that a section carries in its footer.
pub open spec fn section_id(section: Seq<u8>) -> int {
    le_u16(section.subrange(SECTION_ID_OFFSET as int, SECTION_ID_OFFSET + 2))
}

/// The save index that a section carries in its footer.
pub open spec fn save_index(section: Seq<u8>) -> int {
    le_u32(section.subrange(SAVE_INDEX_OFFSET as int, SAVE_INDEX_OFFSET + 4))
}

/// The identifier of the section at position `k` of a block.
pub open spec fn section_id_at(block: Seq<u8>, k: int) -> int {
    section_id(section_at(block, k))
}

/// The save index of the section at position `k` of a block.
pub open spec fn save_index_at(block: Seq<u8>, k: int) -> int {
    save_index(section_at(block, k))
}

} // verus!
