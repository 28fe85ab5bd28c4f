//! Decoding and validation of a fixed-layout game save.
//!
//! A save buffer holds two redundant blocks of fourteen sections each. Loading
//! a buffer selects the block that was written last, checks its section table
//! and keeps the position of every section, so that field accessors can slice
//! into the buffer without further checks.

pub mod bytes;
pub mod error;
pub mod layout;
pub mod logger;
pub mod save;
pub mod sections;
pub mod selector;

pub use bytes::{read_u16, read_u32};
pub use error::SaveError;
pub use logger::{Level, Logger};
pub use save::{Gender, Save};
pub use sections::validate_sections;
pub use selector::select_block;
