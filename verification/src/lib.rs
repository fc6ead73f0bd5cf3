//! Accent- and case-insensitive comparison, natural ordering and small
//! validation helpers for strings.

pub mod char_ext;
pub mod char_map;
pub mod cmp;
pub mod form_str;
pub mod fs;
pub mod none_if_empty;
pub mod sanitizing;
pub mod str_ci;
pub mod str_own_ext;
pub mod str_utils_ext;
pub mod text;
pub mod trim_in_place;
pub mod unicode;
pub mod url;

pub use char_ext::CharExt;
pub use none_if_empty::NoneIfEmpty;
pub use str_utils_ext::StrUtilsExt;
pub use trim_in_place::TrimInPlace;
