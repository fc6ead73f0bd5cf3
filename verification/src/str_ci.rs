//! Strings that are equal when they differ only in case.

use vstd::prelude::*;
use vstd::std_specs::cmp::PartialEqSpecImpl;
use vstd::std_specs::convert::FromSpecImpl;
use crate::cmp::{eq_by, rule_eq_ci, EqExt};
use crate::form_str::FormStr;

verus! {

/// A borrowed string that is compared without regard to case. For an
/// owned one, see [`StringCi`].
#[derive(Clone, Copy, Debug)]
pub struct StrCi<'a>(&'a str);

impl<'a> View for StrCi<'a> {
    type V = Seq<char>;

    closed spec fn view(&self) -> Seq<char> {
        self.0@
    }
}

impl<'a> StrCi<'a> {
    /// Wraps `s`.
    pub fn new(s: &'a str) -> (out: StrCi<'a>)
        ensures
            out@ == s@,
    {
        StrCi(s)
    }

    /// The string as it was given.
    pub fn as_str(&self) -> (out: &'a str)
        ensures
            out@ == self@,
    {
        self.0
    }

    /// Whether the string equals `other` when case is ignored.
    pub fn eq_str(&self, other: &str) -> (res: bool)
        ensures
            res == eq_by(self@, other@, rule_eq_ci()),
    {
        self.0.eq_ci(other)
    }

    /// Whether the string equals a formatted string when case is ignored.
    pub fn eq_form_str<F>(&self, other: &FormStr<F>) -> (res: bool)
        ensures
            res == eq_by(self@, other@, rule_eq_ci()),
    {
        self.0.eq_ci(other.as_str())
    }

    /// An owned copy.
    pub fn to_owned(&self) -> (out: StringCi)
        ensures
            out@ == self@,
    {
        StringCi(self.0.to_owned())
    }
}

impl<'a> PartialEq for StrCi<'a> {
    fn eq(&self, other: &StrCi<'a>) -> (res: bool) {
        self.0.eq_ci(other.0)
    }
}

impl<'a> PartialEqSpecImpl for StrCi<'a> {
    open spec fn obeys_eq_spec() -> bool {
        true
    }

    open spec fn eq_spec(&self, other: &StrCi<'a>) -> bool {
        eq_by(self@, other@, rule_eq_ci())
    }
}

impl<'a> PartialEq<str> for StrCi<'a> {
    fn eq(&self, other: &str) -> (res: bool) {
        self.eq_str(other)
    }
}

impl<'a> PartialEqSpecImpl<str> for StrCi<'a> {
    open spec fn obeys_eq_spec() -> bool {
        true
    }

    open spec fn eq_spec(&self, other: &str) -> bool {
        eq_by(self@, other@, rule_eq_ci())
    }
}

impl<'a, F> PartialEq<FormStr<F>> for StrCi<'a> {
    fn eq(&self, other: &FormStr<F>) -> (res: bool) {
        self.eq_form_str(other)
    }
}

impl<'a, F> PartialEqSpecImpl<FormStr<F>> for StrCi<'a> {
    open spec fn obeys_eq_spec() -> bool {
        true
    }

    open spec fn eq_spec(&self, other: &FormStr<F>) -> bool {
        eq_by(self@, other@, rule_eq_ci())
    }
}

/// An owned string that is compared without regard to case. For a
/// borrowed one, see [`StrCi`].
#[derive(Debug)]
pub struct StringCi(pub String);

impl Clone for StringCi {
    fn clone(&self) -> (out: StringCi)
        ensures
            out@ == self@,
    {
        StringCi(self.0.clone())
    }
}

impl Default for StringCi {
    fn default() -> (out: StringCi)
        ensures
            out@ == Seq::<char>::empty(),
    {
        StringCi(String::new())
    }
}

impl View for StringCi {
    type V = Seq<char>;

    open spec fn view(&self) -> Seq<char> {
        self.0@
    }
}

impl StringCi {
    /// The string, borrowed.
    pub fn as_str_ci(&self) -> (out: StrCi<'_>)
        ensures
            out@ == self@,
    {
        StrCi(self.0.as_str())
    }

    /// The string as it was given.
    pub fn as_str(&self) -> (out: &str)
        ensures
            out@ == self@,
    {
        self.0.as_str()
    }
}

impl PartialEq for StringCi {
    fn eq(&self, other: &StringCi) -> (res: bool) {
        self.0.as_str().eq_ci(other.0.as_str())
    }
}

impl PartialEqSpecImpl for StringCi {
    open spec fn obeys_eq_spec() -> bool {
        true
    }

    open spec fn eq_spec(&self, other: &StringCi) -> bool {
        eq_by(self@, other@, rule_eq_ci())
    }
}

impl<'a> From<&'a str> for StringCi {
    fn from(value: &'a str) -> (out: StringCi)
        ensures
            out@ == value@,
    {
        StringCi(value.to_owned())
    }
}

impl<'a> FromSpecImpl<&'a str> for StringCi {
    open spec fn obeys_from_spec() -> bool {
        false
    }

    open spec fn from_spec(value: &'a str) -> StringCi {
        arbitrary()
    }
}

/// A case-insensitive string, borrowed or owned, with a second value.
#[derive(Debug)]
pub enum StringCi1<'a, A> {
    StrIc(StrCi<'a>, A),
    StringIc(StringCi, A),
}

impl<'a, A> StringCi1<'a, A> {
    /// The string, borrowed, and the second value.
    pub fn as_tuple(&self) -> (out: (StrCi<'_>, &A))
        ensures
            out.0@ == match *self {
                StringCi1::StrIc(s, _) => s@,
                StringCi1::StringIc(s, _) => s@,
            },
            *out.1 == match *self {
                StringCi1::StrIc(_, a) => a,
                StringCi1::StringIc(_, a) => a,
            },
    {
        match self {
            StringCi1::StrIc(s, a) => (*s, a),
            StringCi1::StringIc(s, a) => (s.as_str_ci(), a),
        }
    }
}

} // verus!
