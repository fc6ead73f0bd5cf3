//! The facts about characters that this crate takes from the Unicode tables
//! of the standard library and of the crates it depends on.
//!
//! Nothing in this file is proved. Each function below calls one function
//! from outside and states, over an uninterpreted name, only what that
//! function's documentation says.

use vstd::prelude::*;
use unicode_normalization::UnicodeNormalization;

verus! {

/// The lowercase mapping of a character: one or more characters.
pub uninterp spec fn lowercase_of(c: char) -> Seq<char>;

/// The uppercase mapping of a character: one or more characters.
pub uninterp spec fn uppercase_of(c: char) -> Seq<char>;

/// Whether a character has one of the Unicode numeric general categories.
pub uninterp spec fn numeric(c: char) -> bool;

/// Whether a character is alphabetic or numeric in the Unicode sense.
pub uninterp spec fn alphanumeric(c: char) -> bool;

/// Whether a character has the general category of control codes.
pub uninterp spec fn control(c: char) -> bool;

/// Whether a character has the Unicode property `White_Space`.
pub uninterp spec fn whitespace(c: char) -> bool;

/// The canonical decomposition (normalization form D) of a sequence.
pub uninterp spec fn decomposed(s: Seq<char>) -> Seq<char>;

/// The ASCII transliteration of a character.
pub uninterp spec fn transliteration(c: char) -> Seq<char>;

/// The lowercase form of a whole string.
pub uninterp spec fn lowercased(s: Seq<char>) -> Seq<char>;

/// The uppercase form of a whole string.
pub uninterp spec fn uppercased(s: Seq<char>) -> Seq<char>;

/// `s` without its leading whitespace.
pub open spec fn trim_start_of(s: Seq<char>) -> Seq<char>
    decreases s.len(),
{
    if s.len() > 0 && whitespace(s[0]) {
        trim_start_of(s.drop_first())
    } else {
        s
    }
}

/// `s` without its trailing whitespace.
pub open spec fn trim_end_of(s: Seq<char>) -> Seq<char>
    decreases s.len(),
{
    if s.len() > 0 && whitespace(s.last()) {
        trim_end_of(s.drop_last())
    } else {
        s
    }
}

/// `s` without its leading and trailing whitespace.
pub open spec fn trimmed(s: Seq<char>) -> Seq<char> {
    trim_end_of(trim_start_of(s))
}

/// Calls `char::to_lowercase` and collects what it yields. The result is
/// the character's lowercase mapping, which depends on the character alone.
#[verifier::external_body]
pub(crate) fn lowercase(c: char) -> (out: Vec<char>)
    ensures
        out@ == lowercase_of(c),
{
    c.to_lowercase().collect()
}

/// Calls `char::to_uppercase` and collects what it yields. The result is
/// the character's uppercase mapping, which depends on the character alone.
#[verifier::external_body]
pub(crate) fn uppercase(c: char) -> (out: Vec<char>)
    ensures
        out@ == uppercase_of(c),
{
    c.to_uppercase().collect()
}

/// Calls `char::is_numeric`: whether the character has one of the numeric
/// general categories, which depends on the character alone.
#[verifier::external_body]
pub(crate) fn is_numeric(c: char) -> (res: bool)
    ensures
        res == numeric(c),
{
    c.is_numeric()
}

/// Calls `char::is_alphanumeric`: whether the character is alphabetic or
/// numeric, which depends on the character alone.
#[verifier::external_body]
pub(crate) fn is_alphanumeric(c: char) -> (res: bool)
    ensures
        res == alphanumeric(c),
{
    c.is_alphanumeric()
}

/// Calls `char::is_control`: whether the character has the general
/// category of control codes, which depends on the character alone.
#[verifier::external_body]
pub(crate) fn is_control(c: char) -> (res: bool)
    ensures
        res == control(c),
{
    c.is_control()
}

/// Calls `str::trim`, which returns the slice left once leading and
/// trailing characters with the property `White_Space` are removed.
#[verifier::external_body]
pub(crate) fn trim<'a>(s: &'a str) -> (out: &'a str)
    ensures
        out@ == trimmed(s@),
        out@.len() > 0 ==> !whitespace(out@.first()) && !whitespace(out@.last()),
{
    s.trim()
}

/// Calls `str::to_lowercase`. The result depends on the string alone.
#[verifier::external_body]
pub(crate) fn to_lowercase(s: &str) -> (out: String)
    ensures
        out@ == lowercased(s@),
{
    s.to_lowercase()
}

/// Calls `str::to_uppercase`. The result depends on the string alone.
#[verifier::external_body]
pub(crate) fn to_uppercase(s: &str) -> (out: String)
    ensures
        out@ == uppercased(s@),
{
    s.to_uppercase()
}

/// Calls `UnicodeNormalization::nfd` of the crate `unicode-normalization` on
/// the characters given and collects what it yields: their canonical
/// decomposition, which depends on the characters alone.
#[verifier::external_body]
pub(crate) fn decompose(chars: &Vec<char>) -> (out: Vec<char>)
    ensures
        out@ == decomposed(chars@),
{
    chars.iter().copied().nfd().collect()
}

/// Calls `unidecode::unidecode_char`, a lookup in a fixed table: the
/// transliteration depends on the character alone.
#[verifier::external_body]
pub(crate) fn transliterate(c: char) -> (out: &'static str)
    ensures
        out@ == transliteration(c),
{
    unidecode::unidecode_char(c)
}

/// `char::from_u32` gives the character with the code point `i`, and
/// `None` where `i` is a surrogate or lies above `0x10FFFF`.
pub assume_specification[ char::from_u32 ](i: u32) -> (res: Option<char>)
    ensures
        (i < 0xD800 || (0xDFFF < i && i <= 0x10FFFF)) ==> res.is_some() && res.unwrap() as u32 == i,
        !(i < 0xD800 || (0xDFFF < i && i <= 0x10FFFF)) ==> res.is_none(),
;

/// `String::into_boxed_str` keeps the characters of the string.
pub assume_specification[ String::into_boxed_str ](s: String) -> (out: Box<str>)
    ensures
        out@ == s@,
;

/// `String::push` appends one character.
pub assume_specification[ String::push ](s: &mut String, c: char)
    ensures
        final(s)@ == old(s)@.push(c),
;

} // verus!
