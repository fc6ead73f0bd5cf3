//! Searching in strings with comparisons that ignore accents, case, or
//! both, and transforms that remove accents.

use vstd::prelude::*;
use vstd::string::StrSliceExecFns;
use vstd::utf8::encode_utf8;
use std::borrow::Cow;
use crate::cmp::{
    lower_all, lower_each, rule_eq_ai, rule_eq_ai_ci, rule_eq_ci, char_eq_ai, char_eq_ai_ci,
    char_eq_ci, EqExt,
};
use crate::text::{chars_of, reversed, string_of};
use crate::unicode::{transliterate, transliteration, uppercase, uppercase_of};

verus! {

/// What comparing a text with a pattern, position by position, gives.
#[derive(Clone, Copy, Debug, PartialEq, Eq, Structural)]
pub enum SearchResult {
    /// The pattern matches at the start of the text.
    Found,
    /// The text ended before the pattern did: no later start can match.
    NotFoundFinal,
    /// A character differs: a later start may match.
    NotFoundContinue,
}

/// Compares `src` with `pat` position by position under `rule`.
pub open spec fn search_of(
    src: Seq<char>,
    pat: Seq<char>,
    rule: spec_fn(char, char) -> bool,
) -> SearchResult
    decreases pat.len(),
{
    if pat.len() == 0 {
        SearchResult::Found
    } else if src.len() == 0 {
        SearchResult::NotFoundFinal
    } else if rule(src[0], pat[0]) {
        search_of(src.drop_first(), pat.drop_first(), rule)
    } else {
        SearchResult::NotFoundContinue
    }
}

/// `pat` is no longer than `src`, and `rule` holds between each character
/// of `pat` and the character of `src` at the same position.
pub open spec fn starts_by(src: Seq<char>, pat: Seq<char>, rule: spec_fn(char, char) -> bool) -> bool {
    pat.len() <= src.len() && forall|i: int| 0 <= i < pat.len() ==> rule(#[trigger] src[i], pat[i])
}

/// `pat` is no longer than `src`, and `rule` holds between each character
/// of `pat` and the character of `src` at the same distance from the end.
pub open spec fn ends_by(src: Seq<char>, pat: Seq<char>, rule: spec_fn(char, char) -> bool) -> bool {
    starts_by(src.reverse(), pat.reverse(), rule)
}

/// The position in characters, from `from` on, of the first start at which
/// `pat` matches `src` under `rule`. The search ends without a match at the
/// first start from which the text runs out while it still matches.
pub open spec fn find_from(
    src: Seq<char>,
    pat: Seq<char>,
    rule: spec_fn(char, char) -> bool,
    from: nat,
) -> Option<nat>
    decreases src.len() - from,
{
    if from >= src.len() {
        None
    } else {
        match search_of(src.skip(from as int), pat, rule) {
            SearchResult::Found => Some(from),
            SearchResult::NotFoundFinal => None,
            SearchResult::NotFoundContinue => find_from(src, pat, rule, from + 1),
        }
    }
}

/// The number of bytes that the first `i` characters of `src` take.
pub open spec fn byte_offset(src: Seq<char>, i: nat) -> usize {
    encode_utf8(src.take(i as int)).len() as usize
}

/// The position in bytes of the first match of `pat` in `src` under `rule`.
pub open spec fn find_of(src: Seq<char>, pat: Seq<char>, rule: spec_fn(char, char) -> bool) -> Option<
    usize,
> {
    match find_from(src, pat, rule, 0) {
        Some(i) => Some(byte_offset(src, i)),
        None => None,
    }
}

/// The transliterations of the characters of `s`, one after the other.
pub open spec fn plain_all(s: Seq<char>) -> Seq<char>
    decreases s.len(),
{
    if s.len() == 0 {
        Seq::empty()
    } else {
        plain_all(s.drop_last()) + transliteration(s.last())
    }
}

/// The uppercase mappings of the characters of `s`, one after the other.
pub open spec fn upper_all(s: Seq<char>) -> Seq<char>
    decreases s.len(),
{
    if s.len() == 0 {
        Seq::empty()
    } else {
        upper_all(s.drop_last()) + uppercase_of(s.last())
    }
}

/// The first `max` characters of `s`, or all of it where it has fewer.
pub open spec fn truncated(s: Seq<char>, max: int) -> Seq<char> {
    if 0 <= max < s.len() {
        s.take(max)
    } else {
        s
    }
}

/// A comparison that finds the pattern is a match at the start.
pub proof fn lemma_search_found(src: Seq<char>, pat: Seq<char>, rule: spec_fn(char, char) -> bool)
    ensures
        search_of(src, pat, rule) == SearchResult::Found <==> starts_by(src, pat, rule),
    decreases pat.len(),
{
    if pat.len() > 0 && src.len() > 0 {
        let src_rest = src.drop_first();
        let pat_rest = pat.drop_first();
        lemma_search_found(src_rest, pat_rest, rule);
        if starts_by(src, pat, rule) {
            assert(rule(src[0], pat[0]));
            assert forall|i: int| 0 <= i < pat_rest.len() implies rule(#[trigger] src_rest[i], pat_rest[i]) by {
                assert(rule(src[i + 1], pat[i + 1]));
            }
        }
        if search_of(src, pat, rule) == SearchResult::Found {
            assert forall|i: int| 0 <= i < pat.len() implies rule(#[trigger] src[i], pat[i]) by {
                if i > 0 {
                    assert(rule(src_rest[i - 1], pat_rest[i - 1]));
                }
            }
        }
    }
}

/// Compares `src` with `pat` position by position, with `f` deciding
/// whether two characters match.
pub fn search<F: Fn(char, char) -> bool>(
    src: &[char],
    pat: &[char],
    f: &F,
    Ghost(rule): Ghost<spec_fn(char, char) -> bool>,
) -> (res: SearchResult)
    requires
        forall|a: char, b: char| call_requires(*f, (a, b)),
        forall|a: char, b: char, v: bool| call_ensures(*f, (a, b), v) ==> v == rule(a, b),
    ensures
        res == search_of(src@, pat@, rule),
{
    let mut i: usize = 0;
    assert(src@.skip(0) == src@ && pat@.skip(0) == pat@);
    loop
        invariant
            i <= src.len(),
            i <= pat.len(),
            forall|a: char, b: char| call_requires(*f, (a, b)),
            forall|a: char, b: char, v: bool| call_ensures(*f, (a, b), v) ==> v == rule(a, b),
            search_of(src@, pat@, rule) == search_of(src@.skip(i as int), pat@.skip(i as int), rule),
        decreases pat.len() - i,
    {
        if i == pat.len() {
            return SearchResult::Found;
        }
        if i == src.len() {
            return SearchResult::NotFoundFinal;
        }
        if !f(src[i], pat[i]) {
            return SearchResult::NotFoundContinue;
        }
        proof {
            assert(src@.skip(i as int).drop_first() == src@.skip(i + 1));
            assert(pat@.skip(i as int).drop_first() == pat@.skip(i + 1));
        }
        i = i + 1;
    }
}

/// Whether `pat` matches at the start of `src`, with `f` deciding whether
/// two characters match.
pub fn starts_with<F: Fn(char, char) -> bool>(
    src: &str,
    pat: &str,
    f: F,
    Ghost(rule): Ghost<spec_fn(char, char) -> bool>,
) -> (res: bool)
    requires
        forall|a: char, b: char| call_requires(f, (a, b)),
        forall|a: char, b: char, v: bool| call_ensures(f, (a, b), v) ==> v == rule(a, b),
    ensures
        res == starts_by(src@, pat@, rule),
{
    let s = chars_of(src);
    let p = chars_of(pat);
    proof {
        lemma_search_found(s@, p@, rule);
    }
    search(s.as_slice(), p.as_slice(), &f, Ghost(rule)) == SearchResult::Found
}

/// Whether `pat` matches at the end of `src`, with `f` deciding whether two
/// characters match.
pub fn ends_with<F: Fn(char, char) -> bool>(
    src: &str,
    pat: &str,
    f: F,
    Ghost(rule): Ghost<spec_fn(char, char) -> bool>,
) -> (res: bool)
    requires
        forall|a: char, b: char| call_requires(f, (a, b)),
        forall|a: char, b: char, v: bool| call_ensures(f, (a, b), v) ==> v == rule(a, b),
    ensures
        res == ends_by(src@, pat@, rule),
{
    let s = chars_of(src);
    let p = chars_of(pat);
    let s = reversed(s.as_slice());
    let p = reversed(p.as_slice());
    proof {
        lemma_search_found(s@, p@, rule);
    }
    search(s.as_slice(), p.as_slice(), &f, Ghost(rule)) == SearchResult::Found
}

/// The position in bytes of the first match of `pat` in `src`, with `f`
/// deciding whether two characters match.
pub fn find_str<F: Fn(char, char) -> bool>(
    src: &str,
    pat: &str,
    f: F,
    Ghost(rule): Ghost<spec_fn(char, char) -> bool>,
) -> (res: Option<usize>)
    requires
        forall|a: char, b: char| call_requires(f, (a, b)),
        forall|a: char, b: char, v: bool| call_ensures(f, (a, b), v) ==> v == rule(a, b),
    ensures
        res == find_of(src@, pat@, rule),
{
    let s = chars_of(src);
    let p = chars_of(pat);
    let mut i: usize = 0;
    while i < s.len()
        invariant
            i <= s.len(),
            s@ == src@,
            p@ == pat@,
            forall|a: char, b: char| call_requires(f, (a, b)),
            forall|a: char, b: char, v: bool| call_ensures(f, (a, b), v) ==> v == rule(a, b),
            find_from(src@, pat@, rule, 0) == find_from(src@, pat@, rule, i as nat),
        decreases s.len() - i,
    {
        let rest = vstd::slice::slice_subrange(s.as_slice(), i, s.len());
        assert(rest@ == s@.skip(i as int));
        match search(rest, p.as_slice(), &f, Ghost(rule)) {
            SearchResult::Found => {
                let head = src.substring_char(0, i);
                assert(head@ == src@.take(i as int));
                return Some(head.len());
            },
            SearchResult::NotFoundFinal => {
                return None;
            },
            SearchResult::NotFoundContinue => {},
        }
        i = i + 1;
    }
    None
}

/// Replaces each character by its transliteration.
pub fn plain(chars: &[char]) -> (out: Vec<char>)
    ensures
        out@ == plain_all(chars@),
{
    let mut out: Vec<char> = Vec::new();
    let mut i: usize = 0;
    while i < chars.len()
        invariant
            i <= chars.len(),
            out@ == plain_all(chars@.take(i as int)),
        decreases chars.len() - i,
    {
        let mut t = chars_of(transliterate(chars[i]));
        proof {
            assert(chars@.take(i + 1).drop_last() == chars@.take(i as int));
        }
        out.append(&mut t);
        i = i + 1;
    }
    assert(chars@.take(i as int) == chars@);
    out
}

/// Replaces each character by its uppercase mapping.
pub fn upper_each(chars: &[char]) -> (out: Vec<char>)
    ensures
        out@ == upper_all(chars@),
{
    let mut out: Vec<char> = Vec::new();
    let mut i: usize = 0;
    while i < chars.len()
        invariant
            i <= chars.len(),
            out@ == upper_all(chars@.take(i as int)),
        decreases chars.len() - i,
    {
        let mut up = uppercase(chars[i]);
        proof {
            assert(chars@.take(i + 1).drop_last() == chars@.take(i as int));
        }
        out.append(&mut up);
        i = i + 1;
    }
    assert(chars@.take(i as int) == chars@);
    out
}

/// Searching and transforming strings without regard to accents or case.
pub trait StrUtilsExt {
    /// The characters of the string.
    spec fn content(&self) -> Seq<char>;

    /// Whether the string ends with `pat` when accents are ignored.
    fn ends_with_ai(&self, pat: &str) -> (res: bool)
        ensures
            res == ends_by(self.content(), pat@, rule_eq_ai()),
    ;

    /// Whether the string ends with `pat` when accents and case are ignored.
    fn ends_with_ai_ci(&self, pat: &str) -> (res: bool)
        ensures
            res == ends_by(self.content(), pat@, rule_eq_ai_ci()),
    ;

    /// Whether the string ends with `pat` when case is ignored.
    fn ends_with_ci(&self, pat: &str) -> (res: bool)
        ensures
            res == ends_by(self.content(), pat@, rule_eq_ci()),
    ;

    /// The byte index of the first match of `pat` when accents are ignored.
    fn find_ai(&self, pat: &str) -> (res: Option<usize>)
        ensures
            res == find_of(self.content(), pat@, rule_eq_ai()),
    ;

    /// The byte index of the first match of `pat` when accents and case are
    /// ignored.
    fn find_ai_ci(&self, pat: &str) -> (res: Option<usize>)
        ensures
            res == find_of(self.content(), pat@, rule_eq_ai_ci()),
    ;

    /// The byte index of the first match of `pat` when case is ignored.
    fn find_ci(&self, pat: &str) -> (res: Option<usize>)
        ensures
            res == find_of(self.content(), pat@, rule_eq_ci()),
    ;

    /// Whether the string starts with `pat` when accents are ignored.
    fn starts_with_ai(&self, pat: &str) -> (res: bool)
        ensures
            res == starts_by(self.content(), pat@, rule_eq_ai()),
    ;

    /// Whether the string starts with `pat` when accents and case are
    /// ignored.
    fn starts_with_ai_ci(&self, pat: &str) -> (res: bool)
        ensures
            res == starts_by(self.content(), pat@, rule_eq_ai_ci()),
    ;

    /// Whether the string starts with `pat` when case is ignored.
    fn starts_with_ci(&self, pat: &str) -> (res: bool)
        ensures
            res == starts_by(self.content(), pat@, rule_eq_ci()),
    ;

    /// The string with each character replaced by its transliteration.
    fn no_accent(&self) -> (out: String)
        ensures
            out@ == plain_all(self.content()),
    ;

    /// The string without accents, in lowercase.
    fn no_accent_lowercase(&self) -> (out: String)
        ensures
            out@ == lower_all(plain_all(self.content())),
    ;

    /// The string without accents, in uppercase.
    fn no_accent_uppercase(&self) -> (out: String)
        ensures
            out@ == upper_all(plain_all(self.content())),
    ;

    /// Whether `pat` is found in the string when accents are ignored.
    fn contains_ai(&self, pat: &str) -> (res: bool)
        ensures
            res == find_of(self.content(), pat@, rule_eq_ai()).is_some(),
    {
        self.find_ai(pat).is_some()
    }

    /// Whether `pat` is found in the string when accents and case are
    /// ignored.
    fn contains_ai_ci(&self, pat: &str) -> (res: bool)
        ensures
            res == find_of(self.content(), pat@, rule_eq_ai_ci()).is_some(),
    {
        self.find_ai_ci(pat).is_some()
    }

    /// Whether `pat` is found in the string when case is ignored.
    fn contains_ci(&self, pat: &str) -> (res: bool)
        ensures
            res == find_of(self.content(), pat@, rule_eq_ci()).is_some(),
    {
        self.find_ci(pat).is_some()
    }

    /// The first `max_chars` characters of the string, or all of it where
    /// it has fewer.
    fn truncate_chars(&self, max_chars: usize) -> (out: Cow<'_, str>)
        ensures
            out@ == truncated(self.content(), max_chars as int),
            out is Borrowed,
    ;
}

impl StrUtilsExt for str {
    open spec fn content(&self) -> Seq<char> {
        self@
    }

    fn ends_with_ai(&self, pat: &str) -> (res: bool) {
        let f = |a: char, b: char| -> (v: bool)
            ensures
                v == char_eq_ai(a, b),
            { a.eq_ai(b) };
        ends_with(self, pat, f, Ghost(rule_eq_ai()))
    }

    fn ends_with_ai_ci(&self, pat: &str) -> (res: bool) {
        let f = |a: char, b: char| -> (v: bool)
            ensures
                v == char_eq_ai_ci(a, b),
            { a.eq_ai_ci(b) };
        ends_with(self, pat, f, Ghost(rule_eq_ai_ci()))
    }

    fn ends_with_ci(&self, pat: &str) -> (res: bool) {
        let f = |a: char, b: char| -> (v: bool)
            ensures
                v == char_eq_ci(a, b),
            { a.eq_ci(b) };
        ends_with(self, pat, f, Ghost(rule_eq_ci()))
    }

    fn find_ai(&self, pat: &str) -> (res: Option<usize>) {
        let f = |a: char, b: char| -> (v: bool)
            ensures
                v == char_eq_ai(a, b),
            { a.eq_ai(b) };
        find_str(self, pat, f, Ghost(rule_eq_ai()))
    }

    fn find_ai_ci(&self, pat: &str) -> (res: Option<usize>) {
        let f = |a: char, b: char| -> (v: bool)
            ensures
                v == char_eq_ai_ci(a, b),
            { a.eq_ai_ci(b) };
        find_str(self, pat, f, Ghost(rule_eq_ai_ci()))
    }

    fn find_ci(&self, pat: &str) -> (res: Option<usize>) {
        let f = |a: char, b: char| -> (v: bool)
            ensures
                v == char_eq_ci(a, b),
            { a.eq_ci(b) };
        find_str(self, pat, f, Ghost(rule_eq_ci()))
    }

    fn starts_with_ai(&self, pat: &str) -> (res: bool) {
        let f = |a: char, b: char| -> (v: bool)
            ensures
                v == char_eq_ai(a, b),
            { a.eq_ai(b) };
        starts_with(self, pat, f, Ghost(rule_eq_ai()))
    }

    fn starts_with_ai_ci(&self, pat: &str) -> (res: bool) {
        let f = |a: char, b: char| -> (v: bool)
            ensures
                v == char_eq_ai_ci(a, b),
            { a.eq_ai_ci(b) };
        starts_with(self, pat, f, Ghost(rule_eq_ai_ci()))
    }

    fn starts_with_ci(&self, pat: &str) -> (res: bool) {
        let f = |a: char, b: char| -> (v: bool)
            ensures
                v == char_eq_ci(a, b),
            { a.eq_ci(b) };
        starts_with(self, pat, f, Ghost(rule_eq_ci()))
    }

    fn no_accent(&self) -> (out: String) {
        let chars = chars_of(self);
        let out = plain(chars.as_slice());
        string_of(out.as_slice())
    }

    fn no_accent_lowercase(&self) -> (out: String) {
        let chars = chars_of(self);
        let out = plain(chars.as_slice());
        let out = lower_each(out.as_slice());
        string_of(out.as_slice())
    }

    fn no_accent_uppercase(&self) -> (out: String) {
        let chars = chars_of(self);
        let out = plain(chars.as_slice());
        let out = upper_each(out.as_slice());
        string_of(out.as_slice())
    }

    fn truncate_chars(&self, max_chars: usize) -> (out: Cow<'_, str>) {
        let n = self.unicode_len();
        if max_chars < n {
            Cow::Borrowed(self.substring_char(0, max_chars))
        } else {
            Cow::Borrowed(self)
        }
    }
}

impl StrUtilsExt for String {
    open spec fn content(&self) -> Seq<char> {
        self@
    }

    fn ends_with_ai(&self, pat: &str) -> (res: bool) {
        self.as_str().ends_with_ai(pat)
    }

    fn ends_with_ai_ci(&self, pat: &str) -> (res: bool) {
        self.as_str().ends_with_ai_ci(pat)
    }

    fn ends_with_ci(&self, pat: &str) -> (res: bool) {
        self.as_str().ends_with_ci(pat)
    }

    fn find_ai(&self, pat: &str) -> (res: Option<usize>) {
        self.as_str().find_ai(pat)
    }

    fn find_ai_ci(&self, pat: &str) -> (res: Option<usize>) {
        self.as_str().find_ai_ci(pat)
    }

    fn find_ci(&self, pat: &str) -> (res: Option<usize>) {
        self.as_str().find_ci(pat)
    }

    fn starts_with_ai(&self, pat: &str) -> (res: bool) {
        self.as_str().starts_with_ai(pat)
    }

    fn starts_with_ai_ci(&self, pat: &str) -> (res: bool) {
        self.as_str().starts_with_ai_ci(pat)
    }

    fn starts_with_ci(&self, pat: &str) -> (res: bool) {
        self.as_str().starts_with_ci(pat)
    }

    fn no_accent(&self) -> (out: String) {
        self.as_str().no_accent()
    }

    fn no_accent_lowercase(&self) -> (out: String) {
        self.as_str().no_accent_lowercase()
    }

    fn no_accent_uppercase(&self) -> (out: String) {
        self.as_str().no_accent_uppercase()
    }

    fn truncate_chars(&self, max_chars: usize) -> (out: Cow<'_, str>) {
        self.as_str().truncate_chars(max_chars)
    }
}

} // verus!
