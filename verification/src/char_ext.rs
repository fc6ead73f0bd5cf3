//! Removal of the accent of a single character.

use vstd::prelude::*;
use crate::unicode::{transliterate, transliteration};

verus! {

/// Removal of accents.
pub trait CharExt {
    /// The text that stands for the value once accents are removed.
    spec fn plain(self) -> Seq<char> where Self: Sized;

    /// Removes the accent: `'é'` gives `"e"`.
    fn no_accent(self) -> (out: &'static str) where Self: Sized
        ensures
            out@ == self.plain(),
    ;
}

impl CharExt for char {
    open spec fn plain(self) -> Seq<char> {
        transliteration(self)
    }

    fn no_accent(self) -> (out: &'static str) {
        transliterate(self)
    }
}

} // verus!
