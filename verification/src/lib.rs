//! Metadata normalization and collision-safe renaming for e-book files.
//!
//! The crate turns raw, format-specific metadata into one canonical record,
//! resolves a four-digit year from several date encodings, renders a
//! filesystem-safe filename from a token pattern, and plans a collision-free
//! rename. All decisions are pure functions over strings; the surrounding
//! program performs the actual file reads and renames.

pub mod epub;
pub mod mobi;
pub mod normalize;
pub mod pdf;
pub mod paths;
pub mod record;
pub mod rename_file;
pub mod text;
pub mod utils;
