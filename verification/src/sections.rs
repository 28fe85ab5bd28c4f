//! Validation of a block's section table.
//!
//! The sections of a block are examined in buffer order. The first section
//! that fails a check decides the error; a block in which none fails yields
//! the table that maps each identifier to the offset of its section.

use vstd::prelude::*;
use vstd::relations::injective_on;
use vstd::set_lib::{lemma_int_range, lemma_map_size, lemma_subset_equality, set_int_range};
use vstd::slice::slice_subrange;

use crate::bytes::{read_u16, read_u32};
use crate::error::SaveError;
use crate::layout::{
    save_index_at, section_at, section_id_at, BLOCK_SIZE, SAVE_INDEX_OFFSET, SECTION_COUNT,
    SECTION_ID_OFFSET, SECTION_SIZE,
};

verus! {

/// The check that the section at position `k` fails, if it fails one: its
/// save index is compared with that of the block's first section, then its
/// identifier is held against the range 0..13, then against the identifiers
/// of the sections before it.
pub open spec fn section_fault(block: Seq<u8>, k: int) -> Option<SaveError> {
    if save_index_at(block, k) != save_index_at(block, 0) {
        Some(SaveError::InconsistentSaveIndex)
    } else if section_id_at(block, k) >= SECTION_COUNT {
        Some(SaveError::InvalidSectionId)
    } else if exists|j: int|
        0 <= j < k && #[trigger] section_id_at(block, j) == section_id_at(block, k) {
        Some(SaveError::DuplicateSectionId)
    } else {
        None
    }
}

/// The fault of the first faulty section at position `k` or later.
pub open spec fn first_fault_from(block: Seq<u8>, k: int) -> Option<SaveError>
    decreases SECTION_COUNT - k,
{
    if k >= SECTION_COUNT {
        None
    } else if section_fault(block, k) is Some {
        section_fault(block, k)
    } else {
        first_fault_from(block, k + 1)
    }
}

/// The error with which validation refuses `block`, or `None` where the
/// block is accepted.
pub open spec fn first_fault(block: Seq<u8>) -> Option<SaveError> {
    first_fault_from(block, 0)
}

/// The first `n` sections of the block carry the same save index.
pub open spec fn uniform_save_index(block: Seq<u8>, n: int) -> bool {
    forall|k: int| 0 <= k < n ==> #[trigger] save_index_at(block, k) == save_index_at(block, 0)
}

/// Each of the first `n` sections of the block carries an identifier in
/// 0..13.
pub open spec fn identifiers_in_range(block: Seq<u8>, n: int) -> bool {
    forall|k: int| 0 <= k < n ==> #[trigger] section_id_at(block, k) < SECTION_COUNT
}

/// No two of the first `n` sections of the block carry the same identifier
/// in 0..13.
pub open spec fn identifiers_distinct(block: Seq<u8>, n: int) -> bool {
    forall|j: int, k: int|
        0 <= j < k < n && #[trigger] section_id_at(block, j) == #[trigger] section_id_at(block, k)
            ==> section_id_at(block, k) >= SECTION_COUNT
}

/// Some section of the block carries `id`.
pub open spec fn identifier_present(block: Seq<u8>, id: int) -> bool {
    exists|k: int| 0 <= k < SECTION_COUNT && #[trigger] section_id_at(block, k) == id
}

/// The position of the section of `block` that carries `id`.
pub open spec fn section_index(block: Seq<u8>, id: int) -> int {
    choose|k: int| 0 <= k < SECTION_COUNT && #[trigger] section_id_at(block, k) == id
}

/// `offsets` maps each identifier to the byte offset, within `block`, of the
/// section that carries it.
pub open spec fn is_offset_table(block: Seq<u8>, offsets: Seq<usize>) -> bool {
    &&& offsets.len() == SECTION_COUNT
    &&& forall|id: int|
        0 <= id < SECTION_COUNT ==> #[trigger] offsets[id] == section_index(block, id)
            * SECTION_SIZE
}

/// From position `k` on, the scan finds no fault exactly if no section there
/// is faulty, and else the fault of the earliest faulty one.
proof fn lemma_first_fault_from(block: Seq<u8>, k: int)
    requires
        0 <= k <= SECTION_COUNT,
    ensures
        first_fault_from(block, k) is None <==> forall|m: int|
            k <= m < SECTION_COUNT ==> (#[trigger] section_fault(block, m)) is None,
        first_fault_from(block, k) is Some ==> exists|m: int|
            k <= m < SECTION_COUNT && #[trigger] section_fault(block, m) == first_fault_from(
                block,
                k,
            ) && forall|j: int| k <= j < m ==> (#[trigger] section_fault(block, j)) is None,
    decreases SECTION_COUNT - k,
{
    if k < SECTION_COUNT {
        lemma_first_fault_from(block, k + 1);
    }
}

/// Where the section at position `k` is faulty and no section before it is,
/// its fault is the outcome of validation.
pub proof fn lemma_fault_decides(block: Seq<u8>, k: int)
    requires
        0 <= k < SECTION_COUNT,
        section_fault(block, k) is Some,
        forall|j: int| 0 <= j < k ==> (#[trigger] section_fault(block, j)) is None,
    ensures
        first_fault(block) == section_fault(block, k),
{
    lemma_first_fault_from(block, 0);
}

/// Validation reports the fault of the earliest faulty section: `e` is the
/// outcome exactly if some section fails with `e` and none before it fails.
pub proof fn lemma_first_fault_is_earliest(block: Seq<u8>, e: SaveError)
    ensures
        first_fault(block) == Some(e) <==> exists|k: int|
            0 <= k < SECTION_COUNT && #[trigger] section_fault(block, k) == Some(e)
                && forall|j: int| 0 <= j < k ==> (#[trigger] section_fault(block, j)) is None,
{
    lemma_first_fault_from(block, 0);
    if exists|k: int|
        0 <= k < SECTION_COUNT && #[trigger] section_fault(block, k) == Some(e) && forall|j: int|
            0 <= j < k ==> (#[trigger] section_fault(block, j)) is None {
        let k = choose|k: int|
            0 <= k < SECTION_COUNT && #[trigger] section_fault(block, k) == Some(e)
                && forall|j: int| 0 <= j < k ==> (#[trigger] section_fault(block, j)) is None;
        lemma_fault_decides(block, k);
    }
}

/// The first `n` sections are free of faults exactly if they share one save
/// index and carry pairwise distinct identifiers in 0..13.
proof fn lemma_faultless_prefix(block: Seq<u8>, n: int)
    requires
        0 <= n <= SECTION_COUNT,
    ensures
        (forall|k: int| 0 <= k < n ==> (#[trigger] section_fault(block, k)) is None)
            <==> uniform_save_index(block, n) && identifiers_in_range(block, n)
            && identifiers_distinct(block, n),
{
    if forall|k: int| 0 <= k < n ==> (#[trigger] section_fault(block, k)) is None {
        assert forall|k: int| 0 <= k < n implies #[trigger] save_index_at(block, k)
            == save_index_at(block, 0) by {
            assert(section_fault(block, k) is None);
        }
        assert forall|k: int| 0 <= k < n implies #[trigger] section_id_at(block, k)
            < SECTION_COUNT by {
            assert(section_fault(block, k) is None);
        }
        assert forall|j: int, k: int|
            0 <= j < k < n && #[trigger] section_id_at(block, j) == #[trigger] section_id_at(
                block,
                k,
            ) implies section_id_at(block, k) >= SECTION_COUNT by {
            assert(section_fault(block, k) is None);
        }
    }
}

/// A block is accepted exactly if its sections share one save index and
/// carry pairwise distinct identifiers in 0..13.
pub proof fn lemma_accepted_blocks(block: Seq<u8>)
    ensures
        first_fault(block) is None <==> uniform_save_index(block, SECTION_COUNT as int)
            && identifiers_in_range(block, SECTION_COUNT as int) && identifiers_distinct(
            block,
            SECTION_COUNT as int,
        ),
{
    lemma_first_fault_from(block, 0);
    lemma_faultless_prefix(block, SECTION_COUNT as int);
}

/// In an accepted block every identifier in 0..13 is carried by a section:
/// fourteen sections with distinct identifiers in that range leave no gap.
pub proof fn lemma_every_identifier_present(block: Seq<u8>)
    requires
        first_fault(block) is None,
    ensures
        forall|id: int| 0 <= id < SECTION_COUNT ==> #[trigger] identifier_present(block, id),
{
    lemma_accepted_blocks(block);
    let positions = set_int_range(0, SECTION_COUNT as int);
    let id_at = |k: int| section_id_at(block, k);
    let carried = positions.map(id_at);
    lemma_int_range(0, SECTION_COUNT as int);
    assert(injective_on(id_at, positions));
    lemma_map_size(positions, carried, id_at);
    assert(carried.subset_of(positions));
    lemma_subset_equality(carried, positions);
    assert forall|id: int| 0 <= id < SECTION_COUNT implies #[trigger] identifier_present(
        block,
        id,
    ) by {
        assert(carried.contains(id));
    }
}

/// In an accepted block, looking an identifier up and reading the identifier
/// of a section undo each other.
pub proof fn lemma_section_index(block: Seq<u8>)
    requires
        first_fault(block) is None,
    ensures
        forall|id: int|
            0 <= id < SECTION_COUNT ==> 0 <= #[trigger] section_index(block, id) < SECTION_COUNT
                && section_id_at(block, section_index(block, id)) == id,
        forall|k: int|
            0 <= k < SECTION_COUNT ==> section_index(block, #[trigger] section_id_at(block, k))
                == k,
{
    lemma_accepted_blocks(block);
    lemma_every_identifier_present(block);
    assert forall|id: int| 0 <= id < SECTION_COUNT implies 0 <= #[trigger] section_index(
        block,
        id,
    ) < SECTION_COUNT && section_id_at(block, section_index(block, id)) == id by {
        assert(identifier_present(block, id));
    }
}

/// Validation fails in one of three ways only: with an inconsistent save
/// index, an invalid identifier or a repeated identifier. In particular no
/// block is refused for an incomplete set of sections.
pub proof fn lemma_fault_kinds(block: Seq<u8>)
    ensures
        first_fault(block) is None || first_fault(block) == Some(SaveError::InconsistentSaveIndex)
            || first_fault(block) == Some(SaveError::InvalidSectionId) || first_fault(block)
            == Some(SaveError::DuplicateSectionId),
{
    lemma_first_fault_from(block, 0);
}

/// A block in which the sections at positions `j` and `k` carry the same
/// identifier is refused for the repeated identifier, if every section up to
/// the later of the two has the save index of the first section and an
/// identifier in 0..13.
pub proof fn lemma_duplicate_identifier_rejected(block: Seq<u8>, j: int, k: int)
    requires
        0 <= j < k < SECTION_COUNT,
        section_id_at(block, j) == section_id_at(block, k),
        uniform_save_index(block, k + 1),
        identifiers_in_range(block, k + 1),
    ensures
        first_fault(block) == Some(SaveError::DuplicateSectionId),
{
    lemma_first_fault_from(block, 0);
    assert(section_fault(block, k) is Some);
}

/// A block in which the section at position `k` carries an identifier above
/// 13 is refused for the invalid identifier, if every section up to that one
/// has the save index of the first section and no identifier in 0..13 occurs
/// twice before it.
pub proof fn lemma_invalid_identifier_rejected(block: Seq<u8>, k: int)
    requires
        0 <= k < SECTION_COUNT,
        section_id_at(block, k) >= SECTION_COUNT,
        uniform_save_index(block, k + 1),
        identifiers_distinct(block, k),
    ensures
        first_fault(block) == Some(SaveError::InvalidSectionId),
{
    lemma_first_fault_from(block, 0);
    assert(section_fault(block, k) is Some);
}

/// A block in which the section at position `k` does not have the save index
/// of the first section is refused for the inconsistent save index, if the
/// sections before that one carry pairwise distinct identifiers in 0..13.
pub proof fn lemma_inconsistent_save_index_rejected(block: Seq<u8>, k: int)
    requires
        0 <= k < SECTION_COUNT,
        save_index_at(block, k) != save_index_at(block, 0),
        identifiers_in_range(block, k),
        identifiers_distinct(block, k),
    ensures
        first_fault(block) == Some(SaveError::InconsistentSaveIndex),
{
    lemma_first_fault_from(block, 0);
    assert(section_fault(block, k) is Some);
}

/// The table of an accepted block holds, under the identifier of each
/// section, the offset at which that section starts.
pub proof fn lemma_offset_table(block: Seq<u8>, offsets: Seq<usize>)
    requires
        first_fault(block) is None,
        is_offset_table(block, offsets),
    ensures
        forall|k: int|
            0 <= k < SECTION_COUNT ==> offsets[#[trigger] section_id_at(block, k)] == k
                * SECTION_SIZE,
{
    lemma_accepted_blocks(block);
    lemma_section_index(block);
}

/// A block whose sections share one save index and carry the identifiers
/// 0..13 in order is accepted, and its table maps each identifier to that
/// many sections' worth of bytes.
pub proof fn lemma_ordered_block_accepted(block: Seq<u8>, offsets: Seq<usize>)
    requires
        uniform_save_index(block, SECTION_COUNT as int),
        forall|k: int| 0 <= k < SECTION_COUNT ==> #[trigger] section_id_at(block, k) == k,
        is_offset_table(block, offsets),
    ensures
        first_fault(block) is None,
        forall|id: int| 0 <= id < SECTION_COUNT ==> #[trigger] offsets[id] == id * SECTION_SIZE,
{
    lemma_accepted_blocks(block);
    lemma_section_index(block);
}

/// Checks the section table of a block and returns, for each identifier, the
/// byte offset of its section within the block.
///
/// The sections are examined in buffer order, and the first one that fails a
/// check decides the error.
pub fn validate_sections(block: &[u8]) -> (result: Result<[usize; 14], SaveError>)
    requires
        block@.len() == BLOCK_SIZE,
    ensures
        match result {
            Ok(offsets) => first_fault(block@) is None && is_offset_table(block@, offsets@),
            Err(e) => first_fault(block@) == Some(e),
        },
{
    let mut seen_section_ids: [bool; 14] = [false; 14];
    let mut section_offsets: [usize; 14] = [0; 14];

    let save_index = read_u32(slice_subrange(block, SAVE_INDEX_OFFSET, SAVE_INDEX_OFFSET + 4));
    assert(save_index == save_index_at(block@, 0)) by {
        assert(section_at(block@, 0).subrange(SAVE_INDEX_OFFSET as int, SAVE_INDEX_OFFSET + 4)
            =~= block@.subrange(SAVE_INDEX_OFFSET as int, SAVE_INDEX_OFFSET + 4));
    }

    let mut i: usize = 0;
    while i < SECTION_COUNT
        invariant
            block@.len() == BLOCK_SIZE,
            i <= SECTION_COUNT,
            save_index == save_index_at(block@, 0),
            forall|j: int| 0 <= j < i ==> (#[trigger] section_fault(block@, j)) is None,
            forall|id: int|
                0 <= id < SECTION_COUNT ==> (#[trigger] seen_section_ids@[id] <==> exists|j: int|
                    0 <= j < i && #[trigger] section_id_at(block@, j) == id),
            forall|j: int|
                0 <= j < i ==> 0 <= #[trigger] section_id_at(block@, j) < SECTION_COUNT
                    && section_offsets@[section_id_at(block@, j)] == j * SECTION_SIZE,
        decreases SECTION_COUNT - i,
    {
        let section = slice_subrange(block, i * SECTION_SIZE, i * SECTION_SIZE + SECTION_SIZE);

        if read_u32(slice_subrange(section, SAVE_INDEX_OFFSET, SAVE_INDEX_OFFSET + 4))
            != save_index {
            proof {
                lemma_fault_decides(block@, i as int);
            }
            return Err(SaveError::InconsistentSaveIndex);
        }
        let section_id = read_u16(
            slice_subrange(section, SECTION_ID_OFFSET, SECTION_ID_OFFSET + 2),
        );
        if section_id > 13 {
            proof {
                lemma_fault_decides(block@, i as int);
            }
            return Err(SaveError::InvalidSectionId);
        }
        if seen_section_ids[section_id as usize] {
            proof {
                lemma_fault_decides(block@, i as int);
            }
            return Err(SaveError::DuplicateSectionId);
        } else {
            seen_section_ids[section_id as usize] = true;
        }

        section_offsets[section_id as usize] = i * SECTION_SIZE;

        i += 1;
    }

    proof {
        lemma_first_fault_from(block@, 0);
        lemma_every_identifier_present(block@);
        assert forall|n: int| 0 <= n < SECTION_COUNT implies #[trigger] seen_section_ids@[n] by {
            assert(identifier_present(block@, n));
        }
    }

    // Fourteen distinct identifiers in 0..13 leave none out, so this pass
    // finds every flag set.
    let mut id: usize = 0;
    while id < SECTION_COUNT
        invariant
            id <= SECTION_COUNT,
            forall|n: int| 0 <= n < SECTION_COUNT ==> #[trigger] seen_section_ids@[n],
        decreases SECTION_COUNT - id,
    {
        if !seen_section_ids[id] {
            return Err(SaveError::IncompleteSectionSet);
        }
        id += 1;
    }

    proof {
        lemma_section_index(block@);
    }
    Ok(section_offsets)
}

} // verus!
