//! The ways in which a save can fail to load or to decode.

use vstd::prelude::*;

verus! {

/// Why a save buffer was refused, or a field of it could not be decoded.
#[derive(Debug, Clone, Copy, PartialEq, Eq)]
pub enum SaveError {
    /// The buffer is shorter than a game save.
    TooSmall,
    /// A section's save index differs from that of the block's first section.
    InconsistentSaveIndex,
    /// A section carries an identifier above thirteen.
    InvalidSectionId,
    /// A section carries the identifier of an earlier section.
    DuplicateSectionId,
    /// Some identifier is carried by no section of the block.
    IncompleteSectionSet,
    /// A field holds a value outside its enumeration.
    InvalidFieldValue,
}

impl SaveError {
    /// The text that describes this error.
    pub open spec fn message_text(self) -> Seq<char> {
        match self {
            SaveError::TooSmall => "the game save is too small"@,
            SaveError::InconsistentSaveIndex => "not all sections have the same save index"@,
            SaveError::InvalidSectionId => "invalid section ID"@,
            SaveError::DuplicateSectionId => "repeat section ID"@,
            SaveError::IncompleteSectionSet => "every section didn't appear once"@,
            SaveError::InvalidFieldValue => "invalid player gender value"@,
        }
    }

    /// A short description of the error, fit for printing.
    pub fn message(&self) -> (text: &'static str)
        ensures
            text@ == self.message_text(),
    {
        match self {
            SaveError::TooSmall => "the game save is too small",
            SaveError::InconsistentSaveIndex => "not all sections have the same save index",
            SaveError::InvalidSectionId => "invalid section ID",
            SaveError::DuplicateSectionId => "repeat section ID",
            SaveError::IncompleteSectionSet => "every section didn't appear once",
            SaveError::InvalidFieldValue => "invalid player gender value",
        }
    }
}

} // verus!
