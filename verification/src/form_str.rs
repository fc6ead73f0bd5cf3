//! Strings that are known to have passed a format: a check, a transform, or
//! a chain of both.

use vstd::prelude::*;
use vstd::string::StringExecFns;
use std::borrow::Cow;
use crate::fs::FsError;
use std::cmp::Ordering;
use vstd::std_specs::cmp::{PartialEqSpecImpl, PartialOrdSpecImpl};
use crate::cmp::{ordering_of, to_ordering};
use crate::text::{chars_of, compare_chars, decimal_of, lex_order, push_decimal, same_chars};

pub mod formats;

verus! {

/// Why a format refused a string.
#[derive(Clone, Copy, Debug, PartialEq)]
pub enum FormatErr {
    Fs(FsError),
    MaxLen(usize),
    MinLen,
}

impl FormatErr {
    /// The text of the error.
    pub open spec fn text(&self) -> Seq<char> {
        match *self {
            FormatErr::Fs(e) => e.text(),
            FormatErr::MaxLen(l) => "max len "@ + decimal_of(l as nat),
            FormatErr::MinLen => "min len"@,
        }
    }

    /// The text of the error.
    pub fn message(&self) -> (out: String)
        ensures
            out@ == self.text(),
    {
        match *self {
            FormatErr::Fs(e) => e.message(),
            FormatErr::MaxLen(l) => {
                let mut out = String::from_str("max len ");
                push_decimal(&mut out, l);
                out
            },
            FormatErr::MinLen => String::from_str("min len"),
        }
    }
}

/// A format: a rule that accepts a string, possibly changing it, or refuses
/// it.
pub trait Format {
    /// What the format makes of a text.
    spec fn formatted(&self, s: Seq<char>) -> Result<Seq<char>, FormatErr>;

    /// Applies the format to `s`.
    fn format<'a>(&self, s: Cow<'a, str>) -> (res: Result<Cow<'a, str>, FormatErr>)
        ensures
            res is Ok == self.formatted(s@) is Ok,
            res matches Ok(t) ==> self.formatted(s@) == Ok::<Seq<char>, FormatErr>(t@),
            res matches Err(e) ==> self.formatted(s@) == Err::<Seq<char>, FormatErr>(e),
    ;
}

impl Format for () {
    open spec fn formatted(&self, s: Seq<char>) -> Result<Seq<char>, FormatErr> {
        Ok(s)
    }

    fn format<'a>(&self, s: Cow<'a, str>) -> (res: Result<Cow<'a, str>, FormatErr>) {
        Ok(s)
    }
}

/// Marks a format that accepts the empty string.
pub trait FormatDefault {

}

impl FormatDefault for () {

}

/// The string that a `Cow` holds.
pub fn cow_str<'b, 'a>(s: &'b Cow<'a, str>) -> (out: &'b str)
    ensures
        out@ == s@,
{
    match s {
        Cow::Borrowed(b) => b,
        Cow::Owned(o) => o.as_str(),
    }
}

/// A string that has passed the format `F`.
#[derive(Debug)]
pub struct FormStr<F> {
    text: String,
    format: F,
}

impl<F> View for FormStr<F> {
    type V = Seq<char>;

    closed spec fn view(&self) -> Seq<char> {
        self.text@
    }
}

impl<F> FormStr<F> {
    /// The format that the string has passed.
    pub closed spec fn format_of(&self) -> F {
        self.format
    }

    /// The string.
    pub fn as_str(&self) -> (out: &str)
        ensures
            out@ == self@,
    {
        self.text.as_str()
    }
}

impl<F> FormStr<F> {
    /// The string, owned.
    pub fn into_string(self) -> (out: String)
        ensures
            out@ == self@,
    {
        self.text
    }

    /// The string, owned and boxed.
    pub fn into_boxed_str(self) -> (out: Box<str>)
        ensures
            out@ == self@,
    {
        self.text.into_boxed_str()
    }

    /// The order of two formatted strings: that of their characters.
    pub fn cmp(&self, other: &FormStr<F>) -> (res: Ordering)
        ensures
            res == ordering_of(lex_order(self@, other@)),
    {
        let l = chars_of(self.text.as_str());
        let r = chars_of(other.text.as_str());
        to_ordering(compare_chars(l.as_slice(), r.as_slice()))
    }
}

impl<F> PartialEq for FormStr<F> {
    fn eq(&self, other: &FormStr<F>) -> (res: bool) {
        let l = chars_of(self.text.as_str());
        let r = chars_of(other.text.as_str());
        same_chars(l.as_slice(), r.as_slice())
    }
}

impl<F> PartialEqSpecImpl for FormStr<F> {
    open spec fn obeys_eq_spec() -> bool {
        true
    }

    open spec fn eq_spec(&self, other: &FormStr<F>) -> bool {
        self@ == other@
    }
}

impl<F> PartialOrd for FormStr<F> {
    fn partial_cmp(&self, other: &FormStr<F>) -> (res: Option<Ordering>) {
        Some(self.cmp(other))
    }
}

impl<F> PartialOrdSpecImpl for FormStr<F> {
    open spec fn obeys_partial_cmp_spec() -> bool {
        true
    }

    open spec fn partial_cmp_spec(&self, other: &FormStr<F>) -> Option<Ordering> {
        Some(ordering_of(lex_order(self@, other@)))
    }
}

impl<F: Format> FormStr<F> {
    /// Applies the default value of the format to `s`.
    pub fn new(s: &str) -> (res: Result<Self, FormatErr>) where F: Default
        ensures
            res matches Ok(v) ==> v.format_of().formatted(s@) == Ok::<Seq<char>, FormatErr>(v@),
            res matches Err(e) ==> exists|f: F| #[trigger]
                f.formatted(s@) == Err::<Seq<char>, FormatErr>(e),
    {
        Self::with_format(F::default(), s)
    }

    /// Applies the default value of the format to `s`, and gives `None`
    /// where the format refuses it.
    pub fn new_opt(s: &str) -> (res: Option<Self>) where F: Default
        ensures
            res matches Some(v) ==> v.format_of().formatted(s@) == Ok::<Seq<char>, FormatErr>(v@),
            res is None ==> exists|f: F| #[trigger] f.formatted(s@) is Err,
    {
        match Self::new(s) {
            Ok(v) => Some(v),
            Err(_) => None,
        }
    }

    /// Applies `format` to `s`: the result holds what the format made of
    /// `s`, or the format's error.
    pub fn with_format(format: F, s: &str) -> (res: Result<Self, FormatErr>)
        ensures
            res is Ok == format.formatted(s@) is Ok,
            res matches Ok(v) ==> format.formatted(s@) == Ok::<Seq<char>, FormatErr>(v@)
                && v.format_of() == format,
            res matches Err(e) ==> format.formatted(s@) == Err::<Seq<char>, FormatErr>(e),
    {
        match format.format(Cow::Borrowed(s)) {
            Ok(t) => Ok(FormStr { text: cow_str(&t).to_owned(), format }),
            Err(e) => Err(e),
        }
    }
}

impl<F: Clone> Clone for FormStr<F> {
    fn clone(&self) -> (out: FormStr<F>)
        ensures
            out@ == self@,
    {
        FormStr { text: self.text.clone(), format: self.format.clone() }
    }
}

impl<F: Default + FormatDefault> Default for FormStr<F> {
    fn default() -> (out: Self)
        ensures
            out@ == Seq::<char>::empty(),
    {
        FormStr { text: String::new(), format: F::default() }
    }
}

} // verus!
