//! The handle of a loaded save and the accessors of its fields.

use vstd::prelude::*;
use vstd::slice::slice_subrange;

use crate::error::SaveError;
use crate::layout::{
    section_at, section_id, BLOCK_SIZE, PLAYER_GENDER_OFFSET, SAVE_SIZE, SECTION_COUNT,
    SECTION_SIZE, TRAINER_INFO_SECTION_ID,
};
use crate::sections::{
    first_fault, identifier_present, identifiers_distinct, identifiers_in_range, is_offset_table,
    lemma_accepted_blocks, lemma_every_identifier_present, lemma_fault_kinds,
    lemma_section_index, section_index, uniform_save_index, validate_sections,
};
use crate::selector::{active_block, active_block_offset, select_block};

verus! {

/// The player gender.
#[derive(Debug, Clone, Copy, PartialEq, Eq)]
pub enum Gender {
    Boy,
    Girl,
}

/// The gender that a byte of the trainer info encodes.
pub open spec fn gender_of(value: u8) -> Result<Gender, SaveError> {
    if value == 0x00 {
        Ok(Gender::Boy)
    } else if value == 0x01 {
        Ok(Gender::Girl)
    } else {
        Err(SaveError::InvalidFieldValue)
    }
}

/// The error with which loading refuses a buffer, or `None` where the buffer
/// is loaded: a buffer long enough fails only as its active block does.
pub open spec fn load_fault(bytes: Seq<u8>) -> Option<SaveError> {
    if bytes.len() < SAVE_SIZE {
        Some(SaveError::TooSmall)
    } else {
        first_fault(active_block(bytes))
    }
}

/// The section of the active block of `bytes` that carries `id`.
pub open spec fn section_of(bytes: Seq<u8>, id: int) -> Seq<u8> {
    section_at(active_block(bytes), section_index(active_block(bytes), id))
}

/// A buffer that loads is at least as long as a game save, and the sections
/// of its active block share one save index and carry each identifier in
/// 0..13 exactly once.
pub proof fn lemma_loaded_buffer(bytes: Seq<u8>)
    requires
        load_fault(bytes) is None,
    ensures
        bytes.len() >= SAVE_SIZE,
        uniform_save_index(active_block(bytes), SECTION_COUNT as int),
        identifiers_in_range(active_block(bytes), SECTION_COUNT as int),
        identifiers_distinct(active_block(bytes), SECTION_COUNT as int),
        forall|id: int|
            0 <= id < SECTION_COUNT ==> #[trigger] identifier_present(active_block(bytes), id),
{
    lemma_accepted_blocks(active_block(bytes));
    lemma_every_identifier_present(active_block(bytes));
}

impl Gender {
    /// Decodes the gender byte of the trainer info.
    pub fn from_byte(value: u8) -> (result: Result<Gender, SaveError>)
        ensures
            result == gender_of(value),
    {
        if value == 0x00 {
            Ok(Gender::Boy)
        } else if value == 0x01 {
            Ok(Gender::Girl)
        } else {
            Err(SaveError::InvalidFieldValue)
        }
    }
}

/// A loaded save: the buffer, the offset of its active block and the offset
/// of each section within that block.
pub struct Save {
    buf: Vec<u8>,
    block_offset: usize,
    section_offsets: [usize; 14],
}

impl View for Save {
    type V = Seq<u8>;

    /// The bytes of the buffer that the save was loaded from.
    closed spec fn view(&self) -> Seq<u8> {
        self.buf@
    }
}

impl Save {
    #[verifier::type_invariant]
    spec fn well_formed(self) -> bool {
        &&& load_fault(self.buf@) is None
        &&& self.block_offset == active_block_offset(self.buf@)
        &&& is_offset_table(active_block(self.buf@), self.section_offsets@)
    }

    /// Loads a save from its bytes: selects the active block, validates its
    /// section table and keeps the buffer. No other block is tried where the
    /// active one is refused.
    pub fn new(buf: Vec<u8>) -> (result: Result<Save, SaveError>)
        ensures
            result == Err::<Save, SaveError>(SaveError::TooSmall) <==> buf@.len() < SAVE_SIZE,
            match result {
                Ok(save) => load_fault(buf@) is None && save@ == buf@,
                Err(e) => load_fault(buf@) == Some(e),
            },
    {
        if buf.len() < SAVE_SIZE {
            return Err(SaveError::TooSmall);
        }
        let (block_offset, block) = select_block(buf.as_slice());
        proof {
            lemma_fault_kinds(block@);
        }
        match validate_sections(block) {
            Ok(section_offsets) => Ok(Save { buf, block_offset, section_offsets }),
            Err(e) => Err(e),
        }
    }

    /// The section that carries `id`, out of the active block.
    pub fn section(&self, id: u16) -> (section: &[u8])
        requires
            id < SECTION_COUNT,
        ensures
            load_fault(self@) is None,
            section@ == section_of(self@, id as int),
            section@.len() == SECTION_SIZE,
            section_id(section@) == id,
    {
        proof {
            use_type_invariant(self);
            lemma_section_index(active_block(self@));
        }
        let start = self.block_offset;
        let end = start + BLOCK_SIZE;
        let block = slice_subrange(self.buf.as_slice(), start, end);

        let section_start = self.section_offsets[id as usize];
        let section_end = section_start + SECTION_SIZE;
        slice_subrange(block, section_start, section_end)
    }

    /// The gender of the player, decoded from the trainer info section.
    pub fn player_gender(&self) -> (result: Result<Gender, SaveError>)
        ensures
            load_fault(self@) is None,
            result == gender_of(
                section_of(self@, TRAINER_INFO_SECTION_ID as int)[PLAYER_GENDER_OFFSET as int],
            ),
    {
        let section = self.section(TRAINER_INFO_SECTION_ID);
        Gender::from_byte(section[PLAYER_GENDER_OFFSET])
    }
}

} // verus!
