//! Trimming an owned string where it stands.

use vstd::prelude::*;
use crate::unicode::{trim, trimmed};

verus! {

/// Owned strings that can be trimmed where they stand.
pub trait StrOwnExt: Sized {
    /// The characters of the string.
    spec fn content(&self) -> Seq<char>;

    /// Removes leading and trailing whitespace, and hands the value back.
    fn trim_in_place(&mut self) -> (out: &mut Self)
        ensures
            out.content() == trimmed(old(self).content()),
            *final(self) == *final(out),
    ;
}

impl StrOwnExt for String {
    open spec fn content(&self) -> Seq<char> {
        self@
    }

    fn trim_in_place(&mut self) -> (out: &mut Self) {
        let new = trim(self.as_str()).to_owned();
        *self = new;
        self
    }
}

} // verus!
