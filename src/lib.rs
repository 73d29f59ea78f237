//! Inspection of desktop entry files: where they live, which files count,
//! and which entries carry a given display name.

pub mod text;
pub mod paths;
pub mod scan;
pub mod entry;
