//! The natural order of strings: runs of digits compare by magnitude, other
//! runs compare by their folds.

use vstd::prelude::*;
use vstd::slice::slice_subrange;
use std::cmp::Ordering;
use crate::char_map::fold_table::FoldTable;
use crate::char_map::lower_no_accent::{fold_all, fold_chars};
use crate::cmp::{ordering_of, to_ordering};
use crate::text::{
    byte_len, chars_of, compare_chars, lemma_lex_order_equal, lex_order, same_chars, utf8_len,
    Order,
};
use crate::unicode::{is_numeric, numeric};

verus! {

/// `s` without its leading zeros.
pub open spec fn strip_zeros(s: Seq<char>) -> Seq<char>
    decreases s.len(),
{
    if s.len() > 0 && s[0] == '0' {
        strip_zeros(s.drop_first())
    } else {
        s
    }
}

/// The order of two runs of digits: once leading zeros are removed, the one
/// that takes fewer bytes comes first, and two of the same size are ordered
/// character by character.
pub open spec fn number_order(l: Seq<char>, r: Seq<char>) -> Order {
    let l = strip_zeros(l);
    let r = strip_zeros(r);
    if utf8_len(l) < utf8_len(r) {
        Order::Less
    } else if utf8_len(l) > utf8_len(r) {
        Order::Greater
    } else {
        lex_order(l, r)
    }
}

/// The order of two tokens: two numbers by magnitude, two other runs by
/// their folds, a number and another run character by character.
pub open spec fn token_order(l_num: bool, l: Seq<char>, r_num: bool, r: Seq<char>) -> Order {
    if l_num && r_num {
        number_order(l, r)
    } else if !l_num && !r_num {
        lex_order(fold_all(l), fold_all(r))
    } else {
        lex_order(l, r)
    }
}

/// Whether two tokens are equal: two numbers when they are the same once
/// leading zeros are removed, two other runs when their folds are the same,
/// a number and another run when they are the same text.
pub open spec fn token_eq(l_num: bool, l: Seq<char>, r_num: bool, r: Seq<char>) -> bool {
    if l_num && r_num {
        strip_zeros(l) == strip_zeros(r)
    } else if !l_num && !r_num {
        fold_all(l) == fold_all(r)
    } else {
        l == r
    }
}

/// How many characters from position `from` on are numeric (or not, as
/// `is_num` says) without interruption.
pub open spec fn run_len(s: Seq<char>, is_num: bool, from: nat) -> nat
    decreases s.len() - from,
{
    if from < s.len() && numeric(s[from as int]) == is_num {
        1 + run_len(s, is_num, from + 1)
    } else {
        0
    }
}

/// Where the token that starts at position `start` ends.
pub open spec fn token_end(s: Seq<char>, start: nat) -> nat {
    start + 1 + run_len(s, numeric(s[start as int]), start + 1)
}

/// The natural order of what is left of `a` from position `i` and of `b`
/// from position `j`, both at the start of a token or at the end.
pub open spec fn human_order_from(a: Seq<char>, i: nat, b: Seq<char>, j: nat) -> Order
    decreases a.len() - i,
{
    if i >= a.len() {
        if j >= b.len() {
            Order::Equal
        } else {
            Order::Less
        }
    } else if j >= b.len() {
        Order::Greater
    } else {
        let first = token_order(
            numeric(a[i as int]),
            a.subrange(i as int, token_end(a, i) as int),
            numeric(b[j as int]),
            b.subrange(j as int, token_end(b, j) as int),
        );
        if first != Order::Equal {
            first
        } else {
            proof {
                lemma_run_len_bound(a, numeric(a[i as int]), i + 1);
            }
            human_order_from(a, token_end(a, i), b, token_end(b, j))
        }
    }
}

/// The natural order of two texts: their tokens are compared in pairs, the
/// first pair that differs decides, and where none does the text with
/// fewer tokens comes first.
pub open spec fn human_order(a: Seq<char>, b: Seq<char>) -> Order {
    human_order_from(a, 0, b, 0)
}

/// A run ends inside the text.
pub proof fn lemma_run_len_bound(s: Seq<char>, is_num: bool, from: nat)
    requires
        from <= s.len(),
    ensures
        from + run_len(s, is_num, from) <= s.len(),
    decreases s.len() - from,
{
    if from < s.len() && numeric(s[from as int]) == is_num {
        lemma_run_len_bound(s, is_num, from + 1);
    }
}

/// A token ends after its first character at the earliest.
pub proof fn lemma_token_end_bound(s: Seq<char>, start: nat)
    requires
        start < s.len(),
    ensures
        start < token_end(s, start) <= s.len(),
{
    lemma_run_len_bound(s, numeric(s[start as int]), start + 1);
}

/// What is left of a text compares as `Equal` with itself.
pub proof fn lemma_human_order_from_reflexive(a: Seq<char>, i: nat)
    ensures
        human_order_from(a, i, a, i) == Order::Equal,
    decreases a.len() - i,
{
    if i < a.len() {
        lemma_token_end_bound(a, i);
        let text = a.subrange(i as int, token_end(a, i) as int);
        lemma_lex_order_equal(strip_zeros(text), strip_zeros(text));
        lemma_lex_order_equal(fold_all(text), fold_all(text));
        lemma_human_order_from_reflexive(a, token_end(a, i));
    }
}

/// A text compares as `Equal` with itself.
pub proof fn lemma_human_order_reflexive(a: Seq<char>)
    ensures
        human_order(a, a) == Order::Equal,
{
    lemma_human_order_from_reflexive(a, 0);
}

/// The empty text comes before every other text.
pub proof fn lemma_human_order_empty_first(b: Seq<char>)
    requires
        b.len() > 0,
    ensures
        human_order(Seq::<char>::empty(), b) == Order::Less,
        human_order(b, Seq::<char>::empty()) == Order::Greater,
{
}

/// A maximal run of numeric characters, or of characters that are not.
#[derive(Clone, Copy, Debug)]
pub enum WordOrNumber<'a> {
    Number(&'a [char]),
    Other(&'a [char]),
}

/// The slice without its leading zeros.
pub fn trim_zeros<'a>(s: &'a [char]) -> (out: &'a [char])
    ensures
        out@ == strip_zeros(s@),
{
    let mut i: usize = 0;
    assert(s@.skip(0) == s@);
    while i < s.len() && s[i] == '0'
        invariant
            i <= s.len(),
            strip_zeros(s@) == strip_zeros(s@.skip(i as int)),
        decreases s.len() - i,
    {
        assert(s@.skip(i as int).drop_first() == s@.skip(i + 1));
        i = i + 1;
    }
    assert(s@.skip(i as int) == s@.subrange(i as int, s@.len() as int));
    slice_subrange(s, i, s.len())
}

impl<'a> WordOrNumber<'a> {
    /// Whether the token is a run of numeric characters.
    pub open spec fn is_number(&self) -> bool {
        self is Number
    }

    /// The characters of the token.
    pub open spec fn text(&self) -> Seq<char> {
        match *self {
            WordOrNumber::Number(s) => s@,
            WordOrNumber::Other(s) => s@,
        }
    }

    /// Whether two tokens are equal.
    pub fn same(&self, other: &WordOrNumber<'a>) -> (res: bool)
        ensures
            res == token_eq(self.is_number(), self.text(), other.is_number(), other.text()),
    {
        match (*self, *other) {
            (WordOrNumber::Number(l), WordOrNumber::Number(r)) => {
                same_chars(trim_zeros(l), trim_zeros(r))
            },
            (WordOrNumber::Number(l), WordOrNumber::Other(r)) => same_chars(l, r),
            (WordOrNumber::Other(l), WordOrNumber::Number(r)) => same_chars(l, r),
            (WordOrNumber::Other(l), WordOrNumber::Other(r)) => {
                let l = fold_chars(l);
                let r = fold_chars(r);
                same_chars(l.as_slice(), r.as_slice())
            },
        }
    }

    /// The order of two tokens.
    pub fn order(&self, other: &WordOrNumber<'a>) -> (res: Order)
        ensures
            res == token_order(self.is_number(), self.text(), other.is_number(), other.text()),
    {
        self.order_with(other, None)
    }

    /// The order of two tokens, with the folds read from `table` where one
    /// is given.
    pub fn order_with(&self, other: &WordOrNumber<'a>, table: Option<&FoldTable>) -> (res: Order)
        ensures
            res == token_order(self.is_number(), self.text(), other.is_number(), other.text()),
    {
        match (*self, *other) {
            (WordOrNumber::Number(l), WordOrNumber::Number(r)) => {
                let l = trim_zeros(l);
                let r = trim_zeros(r);
                let nl = byte_len(l);
                let nr = byte_len(r);
                if nl < nr {
                    Order::Less
                } else if nl > nr {
                    Order::Greater
                } else {
                    compare_chars(l, r)
                }
            },
            (WordOrNumber::Number(l), WordOrNumber::Other(r)) => compare_chars(l, r),
            (WordOrNumber::Other(l), WordOrNumber::Number(r)) => compare_chars(l, r),
            (WordOrNumber::Other(l), WordOrNumber::Other(r)) => {
                let (l, r) = match table {
                    Some(t) => (t.fold_chars(l), t.fold_chars(r)),
                    None => (fold_chars(l), fold_chars(r)),
                };
                compare_chars(l.as_slice(), r.as_slice())
            },
        }
    }
}

/// A cursor that cuts a text into tokens, from left to right.
pub struct Iter<'a> {
    s: &'a [char],
    pos: usize,
}

impl<'a> Iter<'a> {
    /// The text that is cut.
    pub closed spec fn source(&self) -> Seq<char> {
        self.s@
    }

    /// The position of the next character to read.
    pub closed spec fn position(&self) -> nat {
        self.pos as nat
    }

    /// The position lies inside the text or at its end.
    #[verifier::type_invariant]
    closed spec fn wf(&self) -> bool {
        self.pos <= self.s@.len()
    }

    /// A cursor at the start of `s`.
    pub fn new(s: &'a [char]) -> (it: Iter<'a>)
        ensures
            it.source() == s@,
            it.position() == 0,
    {
        Iter { s, pos: 0 }
    }

    /// Moves over the characters that are numeric (or not, as `is_num`
    /// says) and returns the position of the first that is not, or `None`
    /// where the text ends first.
    pub fn take_while(&mut self, is_num: bool) -> (res: Option<usize>)
        ensures
            final(self).source() == old(self).source(),
            final(self).position() <= final(self).source().len(),
            final(self).position() == old(self).position() + run_len(
                old(self).source(),
                is_num,
                old(self).position(),
            ),
            final(self).position() < final(self).source().len() ==> res.is_some()
                && res.unwrap() == final(self).position(),
            final(self).position() == final(self).source().len() ==> res.is_none(),
    {
        proof {
            use_type_invariant(&*self);
        }
        while self.pos < self.s.len()
            invariant
                self.pos <= self.s@.len(),
                self.s == old(self).s,
                old(self).pos <= self.pos,
                old(self).position() + run_len(self.s@, is_num, old(self).position())
                    == self.position() + run_len(self.s@, is_num, self.position()),
            decreases self.s.len() - self.pos,
        {
            if is_numeric(self.s[self.pos]) == is_num {
                self.pos = self.pos + 1;
            } else {
                return Some(self.pos);
            }
        }
        None
    }

    /// Cuts the next token off the text, or returns `None` at its end.
    pub fn next(&mut self) -> (res: Option<WordOrNumber<'a>>)
        ensures
            final(self).source() == old(self).source(),
            final(self).position() <= final(self).source().len(),
            old(self).position() <= old(self).source().len(),
            old(self).position() == old(self).source().len() ==> res.is_none()
                && final(self).position() == old(self).position(),
            old(self).position() < old(self).source().len() ==> res.is_some()
                && final(self).position() == token_end(old(self).source(), old(self).position())
                && res.unwrap().is_number() == numeric(
                old(self).source()[old(self).position() as int],
            ) && res.unwrap().text() == old(self).source().subrange(
                old(self).position() as int,
                final(self).position() as int,
            ),
    {
        proof {
            use_type_invariant(&*self);
        }
        if self.pos >= self.s.len() {
            return None;
        }
        let start = self.pos;
        let is_num = is_numeric(self.s[start]);
        self.pos = self.pos + 1;
        let end = match self.take_while(is_num) {
            Some(end) => end,
            None => self.s.len(),
        };
        let text = slice_subrange(self.s, start, end);
        Some(
            if is_num {
                WordOrNumber::Number(text)
            } else {
                WordOrNumber::Other(text)
            },
        )
    }
}

/// Compares two texts in the natural order.
pub fn human_order_chars(a: &[char], b: &[char]) -> (res: Order)
    ensures
        res == human_order(a@, b@),
{
    human_order_chars_with(a, b, None)
}

/// Compares two texts in the natural order, with the folds read from
/// `table` where one is given.
pub fn human_order_chars_with(a: &[char], b: &[char], table: Option<&FoldTable>) -> (res: Order)
    ensures
        res == human_order(a@, b@),
{
    let mut l = Iter::new(a);
    let mut r = Iter::new(b);
    loop
        invariant
            l.position() <= a@.len(),
            r.position() <= b@.len(),
            l.source() == a@,
            r.source() == b@,
            human_order(a@, b@) == human_order_from(a@, l.position(), b@, r.position()),
        decreases a@.len() - l.position(),
    {
        let x = l.next();
        let y = r.next();
        match (x, y) {
            (None, None) => {
                return Order::Equal;
            },
            (None, Some(_)) => {
                return Order::Less;
            },
            (Some(_), None) => {
                return Order::Greater;
            },
            (Some(x), Some(y)) => {
                let first = x.order_with(&y, table);
                if first != Order::Equal {
                    return first;
                }
            },
        }
    }
}

/// Compares two strings in the natural order: `"item2"` comes before
/// `"item10"`, and case and accents in text do not count.
pub fn human_cmp(a: &str, b: &str) -> (res: Ordering)
    ensures
        res == ordering_of(human_order(a@, b@)),
{
    let a = chars_of(a);
    let b = chars_of(b);
    to_ordering(human_order_chars(a.as_slice(), b.as_slice()))
}

/// Compares two strings as [`human_cmp`] does, with the folds read from
/// `table`.
pub fn human_cmp_with(table: &FoldTable, a: &str, b: &str) -> (res: Ordering)
    ensures
        res == ordering_of(human_order(a@, b@)),
{
    let a = chars_of(a);
    let b = chars_of(b);
    to_ordering(human_order_chars_with(a.as_slice(), b.as_slice(), Some(table)))
}

} // verus!
