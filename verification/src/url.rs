//! Validation of the characters of a URL.

use vstd::prelude::*;
use vstd::string::StringExecFns;
use crate::text::chars_of;
use crate::unicode::{trim, trimmed};

verus! {

/// Why a URL was refused.
#[derive(Clone, Copy, Debug, PartialEq, Eq, Structural)]
pub enum UrlError {
    InvalidChar(char),
}

impl UrlError {
    /// The text of the error.
    pub open spec fn text(&self) -> Seq<char> {
        match *self {
            UrlError::InvalidChar(c) => "invalid url char "@.push(c),
        }
    }

    /// The text of the error.
    pub fn message(&self) -> (out: String)
        ensures
            out@ == self.text(),
    {
        match *self {
            UrlError::InvalidChar(c) => {
                let mut out = String::from_str("invalid url char ");
                out.push(c);
                out
            },
        }
    }
}

/// Whether a character is an ASCII letter or digit.
pub open spec fn ascii_alphanumeric(c: char) -> bool {
    ('a' <= c && c <= 'z') || ('A' <= c && c <= 'Z') || ('0' <= c && c <= '9')
}

/// Whether a character may stand in a URL: an ASCII letter or digit, or one
/// of ``-._~:/?#[]@!$&'()*+,;=%``.
pub open spec fn accepted_url_char(c: char) -> bool {
    ascii_alphanumeric(c) || c == '-' || c == '.' || c == '_' || c == '~' || c == ':' || c == '/'
        || c == '?' || c == '#' || c == '[' || c == ']' || c == '@' || c == '!' || c == '$' || c
        == '&' || c == '\'' || c == '(' || c == ')' || c == '*' || c == '+' || c == ',' || c == ';'
        || c == '=' || c == '%'
}

/// The first character of `s` that may not stand in a URL.
pub open spec fn first_rejected(s: Seq<char>) -> Option<char>
    decreases s.len(),
{
    if s.len() == 0 {
        None
    } else if !accepted_url_char(s[0]) {
        Some(s[0])
    } else {
        first_rejected(s.drop_first())
    }
}

/// Whether `c` may stand in a URL.
pub fn is_accepted_url_char(c: char) -> (res: bool)
    ensures
        res == accepted_url_char(c),
{
    ('a' <= c && c <= 'z') || ('A' <= c && c <= 'Z') || ('0' <= c && c <= '9') || c == '-' || c
        == '.' || c == '_' || c == '~' || c == ':' || c == '/' || c == '?' || c == '#' || c == '['
        || c == ']' || c == '@' || c == '!' || c == '$' || c == '&' || c == '\'' || c == '(' || c
        == ')' || c == '*' || c == '+' || c == ',' || c == ';' || c == '=' || c == '%'
}

/// Ensures that every character of the trimmed string may stand in a URL;
/// the error holds the first that may not.
pub fn validate_accepted_url_chars(s: &str) -> (res: Result<(), UrlError>)
    ensures
        res == match first_rejected(trimmed(s@)) {
            Some(c) => Err::<(), UrlError>(UrlError::InvalidChar(c)),
            None => Ok::<(), UrlError>(()),
        },
{
    let t = trim(s);
    let chars = chars_of(t);
    let mut i: usize = 0;
    assert(chars@.skip(0) == chars@);
    while i < chars.len()
        invariant
            i <= chars.len(),
            chars@ == trimmed(s@),
            first_rejected(chars@) == first_rejected(chars@.skip(i as int)),
        decreases chars.len() - i,
    {
        if !is_accepted_url_char(chars[i]) {
            return Err(UrlError::InvalidChar(chars[i]));
        }
        assert(chars@.skip(i as int).drop_first() == chars@.skip(i + 1));
        i = i + 1;
    }
    Ok(())
}

} // verus!
