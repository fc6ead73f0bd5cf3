//! A string that is compared by its lowercased characters.

use vstd::prelude::*;
use std::cmp::Ordering;
use vstd::std_specs::cmp::{PartialEqSpecImpl, PartialOrdSpecImpl};
use vstd::std_specs::convert::FromSpecImpl;
use crate::cmp::{lower_all, lower_each, ordering_of, to_ordering};
use crate::text::{chars_of, compare_chars, lex_order, same_chars};

verus! {

/// A string whose equality and order go by its lowercased characters, each
/// character replaced by its lowercase mapping.
#[derive(Debug)]
pub struct Lower(pub String);

impl Clone for Lower {
    fn clone(&self) -> (out: Lower)
        ensures
            out.0@ == self.0@,
    {
        Lower(self.0.clone())
    }
}

impl Lower {
    /// The characters by which the value is compared.
    pub open spec fn lowered(&self) -> Seq<char> {
        lower_all(self.0@)
    }

    /// Wraps a copy of `s`.
    pub fn new(s: &str) -> (out: Lower)
        ensures
            out.0@ == s@,
    {
        Lower(s.to_owned())
    }

    /// The string as it was given.
    pub fn as_str(&self) -> (out: &str)
        ensures
            out@ == self.0@,
    {
        self.0.as_str()
    }

    /// The characters by which the value is compared.
    pub fn iter(&self) -> (out: Vec<char>)
        ensures
            out@ == self.lowered(),
    {
        let chars = chars_of(self.0.as_str());
        lower_each(chars.as_slice())
    }

    /// Whether the value equals the string `other` when case is ignored.
    pub fn eq_str(&self, other: &str) -> (res: bool)
        ensures
            res == (self.lowered() == lower_all(other@)),
    {
        let l = self.iter();
        let chars = chars_of(other);
        let r = lower_each(chars.as_slice());
        same_chars(l.as_slice(), r.as_slice())
    }

    /// The order of the value and the string `other` by their lowercased
    /// characters.
    pub fn cmp_str(&self, other: &str) -> (res: Ordering)
        ensures
            res == ordering_of(lex_order(self.lowered(), lower_all(other@))),
    {
        let l = self.iter();
        let chars = chars_of(other);
        let r = lower_each(chars.as_slice());
        to_ordering(compare_chars(l.as_slice(), r.as_slice()))
    }

    /// The order of two values by their lowercased characters.
    pub fn cmp(&self, other: &Lower) -> (res: Ordering)
        ensures
            res == ordering_of(lex_order(self.lowered(), other.lowered())),
    {
        let l = self.iter();
        let r = other.iter();
        to_ordering(compare_chars(l.as_slice(), r.as_slice()))
    }
}

impl<'a> From<&'a str> for Lower {
    fn from(s: &'a str) -> (out: Lower)
        ensures
            out.0@ == s@,
    {
        Lower::new(s)
    }
}

impl<'a> FromSpecImpl<&'a str> for Lower {
    open spec fn obeys_from_spec() -> bool {
        false
    }

    open spec fn from_spec(s: &'a str) -> Lower {
        arbitrary()
    }
}

impl PartialEq for Lower {
    fn eq(&self, other: &Lower) -> (res: bool) {
        let l = self.iter();
        let r = other.iter();
        same_chars(l.as_slice(), r.as_slice())
    }
}

impl PartialEqSpecImpl for Lower {
    open spec fn obeys_eq_spec() -> bool {
        true
    }

    open spec fn eq_spec(&self, other: &Lower) -> bool {
        self.lowered() == other.lowered()
    }
}

impl<'a> PartialEq<&'a str> for Lower {
    fn eq(&self, other: &&'a str) -> (res: bool) {
        self.eq_str(*other)
    }
}

impl<'a> PartialEqSpecImpl<&'a str> for Lower {
    open spec fn obeys_eq_spec() -> bool {
        true
    }

    open spec fn eq_spec(&self, other: &&'a str) -> bool {
        self.lowered() == lower_all(other@)
    }
}

impl PartialEq<str> for Lower {
    fn eq(&self, other: &str) -> (res: bool) {
        self.eq_str(other)
    }
}

impl PartialEqSpecImpl<str> for Lower {
    open spec fn obeys_eq_spec() -> bool {
        true
    }

    open spec fn eq_spec(&self, other: &str) -> bool {
        self.lowered() == lower_all(other@)
    }
}

impl<'a> PartialOrd<&'a str> for Lower {
    fn partial_cmp(&self, other: &&'a str) -> (res: Option<Ordering>) {
        Some(self.cmp_str(*other))
    }
}

impl<'a> PartialOrdSpecImpl<&'a str> for Lower {
    open spec fn obeys_partial_cmp_spec() -> bool {
        true
    }

    open spec fn partial_cmp_spec(&self, other: &&'a str) -> Option<Ordering> {
        Some(ordering_of(lex_order(self.lowered(), lower_all(other@))))
    }
}

impl PartialOrd<str> for Lower {
    fn partial_cmp(&self, other: &str) -> (res: Option<Ordering>) {
        Some(self.cmp_str(other))
    }
}

impl PartialOrdSpecImpl<str> for Lower {
    open spec fn obeys_partial_cmp_spec() -> bool {
        true
    }

    open spec fn partial_cmp_spec(&self, other: &str) -> Option<Ordering> {
        Some(ordering_of(lex_order(self.lowered(), lower_all(other@))))
    }
}

impl PartialOrd for Lower {
    fn partial_cmp(&self, other: &Lower) -> (res: Option<Ordering>) {
        Some(self.cmp(other))
    }
}

impl PartialOrdSpecImpl for Lower {
    open spec fn obeys_partial_cmp_spec() -> bool {
        true
    }

    open spec fn partial_cmp_spec(&self, other: &Lower) -> Option<Ordering> {
        Some(ordering_of(lex_order(self.lowered(), other.lowered())))
    }
}

} // verus!
