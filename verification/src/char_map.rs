//! Folding of characters to a lowercase form without accents, and the
//! comparisons built on it.

pub mod fold_table;
pub mod human_cmp;
pub mod lower;
pub mod lower_no_accent;

pub use fold_table::FoldTable;
pub use human_cmp::{human_cmp, human_cmp_with};
pub use lower::Lower;
pub use lower_no_accent::{lower_no_accent_char, lower_no_accent_chars, FoldEntry, MappedChars};
