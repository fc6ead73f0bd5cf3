//! The fold of a character: its lowercase mapping, canonically decomposed,
//! of which only ASCII and alphanumeric characters are kept, three at most.

use vstd::prelude::*;
use vstd::slice::slice_to_vec;
use vstd::std_specs::cmp::{PartialEqSpecImpl, PartialOrdSpecImpl};
use std::cmp::Ordering;
use crate::cmp::{ordering_of, to_ordering};
use crate::text::{chars_of, compare_chars, lex_order, same_chars, string_of, Order};
use crate::unicode::{alphanumeric, decompose, decomposed, is_alphanumeric, lowercase, lowercase_of};

verus! {

/// The most characters that the fold of one character holds.
pub const FOLD_MAX: usize = 3;

/// Whether the fold keeps a character of a decomposition.
pub open spec fn kept(c: char) -> bool {
    (c as u32) < 128 || alphanumeric(c)
}

/// The characters of `s` that the fold keeps, in order.
pub open spec fn retained(s: Seq<char>) -> Seq<char>
    decreases s.len(),
{
    if s.len() == 0 {
        Seq::empty()
    } else if kept(s.last()) {
        retained(s.drop_last()).push(s.last())
    } else {
        retained(s.drop_last())
    }
}

/// The first three elements of `s`, or all of it where it has fewer.
pub open spec fn capped(s: Seq<char>) -> Seq<char> {
    if s.len() > FOLD_MAX {
        s.take(FOLD_MAX as int)
    } else {
        s
    }
}

/// The fold of a character.
pub open spec fn fold_of(c: char) -> Seq<char> {
    capped(retained(decomposed(lowercase_of(c))))
}

/// The folds of the characters of `s`, one after the other.
pub open spec fn fold_all(s: Seq<char>) -> Seq<char>
    decreases s.len(),
{
    if s.len() == 0 {
        Seq::empty()
    } else {
        fold_of(s[0]) + fold_all(s.drop_first())
    }
}

/// Every character that [`retained`] hands back is one that the fold keeps.
pub proof fn lemma_retained_kept(s: Seq<char>)
    ensures
        forall|i: int| 0 <= i < retained(s).len() ==> kept(#[trigger] retained(s)[i]),
    decreases s.len(),
{
    if s.len() > 0 {
        let before = retained(s.drop_last());
        lemma_retained_kept(s.drop_last());
        assert forall|i: int| 0 <= i < retained(s).len() implies kept(
            #[trigger] retained(s)[i],
        ) by {
            if i < before.len() {
                assert(retained(s)[i] == before[i]);
            }
        }
    }
}

/// The fold of a character holds three characters at most, each of them
/// ASCII or alphanumeric.
pub proof fn lemma_fold_bounded(c: char)
    ensures
        fold_of(c).len() <= FOLD_MAX,
        forall|i: int| 0 <= i < fold_of(c).len() ==> kept(#[trigger] fold_of(c)[i]),
{
    lemma_retained_kept(decomposed(lowercase_of(c)));
}

/// Folding a text of which every character is its own fold leaves the text
/// as it is.
pub proof fn lemma_fold_all_fixed(s: Seq<char>)
    requires
        forall|i: int| 0 <= i < s.len() ==> fold_of(#[trigger] s[i]) == seq![s[i]],
    ensures
        fold_all(s) == s,
    decreases s.len(),
{
    if s.len() > 0 {
        let rest = s.drop_first();
        assert forall|i: int| 0 <= i < rest.len() implies fold_of(#[trigger] rest[i]) == seq![
            rest[i],
        ] by {
            assert(rest[i] == s[i + 1]);
        }
        lemma_fold_all_fixed(rest);
        assert(seq![s[0]] + rest =~= s);
    } else {
        assert(s =~= Seq::<char>::empty());
    }
}

/// The fold of one character: no more than three characters, held inline.
#[derive(Clone, Copy, Debug, PartialEq, Eq)]
pub enum FoldEntry {
    Empty,
    One(char),
    Two(char, char),
    Three(char, char, char),
}

impl View for FoldEntry {
    type V = Seq<char>;

    open spec fn view(&self) -> Seq<char> {
        match *self {
            FoldEntry::Empty => Seq::empty(),
            FoldEntry::One(a) => seq![a],
            FoldEntry::Two(a, b) => seq![a, b],
            FoldEntry::Three(a, b, c) => seq![a, b, c],
        }
    }
}

impl FoldEntry {
    /// The entry that holds the first three characters of `chars`, or all of
    /// them where there are fewer.
    pub fn from_chars(chars: &[char]) -> (e: FoldEntry)
        ensures
            e@ == capped(chars@),
    {
        let n = chars.len();
        let e = if n == 0 {
            FoldEntry::Empty
        } else if n == 1 {
            FoldEntry::One(chars[0])
        } else if n == 2 {
            FoldEntry::Two(chars[0], chars[1])
        } else {
            FoldEntry::Three(chars[0], chars[1], chars[2])
        };
        assert(e@ =~= capped(chars@));
        e
    }

    /// The number of characters held.
    pub fn len(&self) -> (n: usize)
        ensures
            n == self@.len(),
            n <= FOLD_MAX,
    {
        match *self {
            FoldEntry::Empty => 0,
            FoldEntry::One(_) => 1,
            FoldEntry::Two(_, _) => 2,
            FoldEntry::Three(_, _, _) => 3,
        }
    }

    /// The character at position `i`, or `None` past the end.
    pub fn get(&self, i: usize) -> (c: Option<char>)
        ensures
            c == if i < self@.len() {
                Some(self@[i as int])
            } else {
                None
            },
    {
        match *self {
            FoldEntry::Empty => None,
            FoldEntry::One(a) => if i == 0 {
                Some(a)
            } else {
                None
            },
            FoldEntry::Two(a, b) => if i == 0 {
                Some(a)
            } else if i == 1 {
                Some(b)
            } else {
                None
            },
            FoldEntry::Three(a, b, c) => if i == 0 {
                Some(a)
            } else if i == 1 {
                Some(b)
            } else if i == 2 {
                Some(c)
            } else {
                None
            },
        }
    }
}

/// Folds one character: lowercases it, decomposes the result canonically,
/// keeps what is ASCII or alphanumeric, and cuts that after three characters.
pub fn lower_no_accent_char(c: char) -> (e: FoldEntry)
    ensures
        e@ == fold_of(c),
{
    let low = lowercase(c);
    let dec = decompose(&low);
    let mut keep: Vec<char> = Vec::new();
    let mut i: usize = 0;
    while i < dec.len()
        invariant
            i <= dec.len(),
            keep@ == retained(dec@.take(i as int)),
        decreases dec.len() - i,
    {
        let d = dec[i];
        proof {
            assert(dec@.take(i + 1).drop_last() == dec@.take(i as int));
        }
        if (d as u32) < 128 || is_alphanumeric(d) {
            keep.push(d);
        }
        i = i + 1;
    }
    assert(dec@.take(i as int) == dec@);
    FoldEntry::from_chars(keep.as_slice())
}

/// A cursor over the folds of the characters of a string: it yields the
/// fold of each character in place of the character, in order.
#[derive(Debug)]
pub struct MappedChars {
    chars: Vec<char>,
    next: usize,
    mapped: FoldEntry,
    taken: usize,
}

impl MappedChars {
    /// The positions lie inside what they index.
    #[verifier::type_invariant]
    closed spec fn wf(&self) -> bool {
        self.next <= self.chars@.len() && self.taken <= self.mapped@.len()
    }

    /// What the cursor has yet to yield.
    pub closed spec fn remaining(&self) -> Seq<char> {
        self.mapped@.skip(self.taken as int) + fold_all(self.chars@.skip(self.next as int))
    }

    /// Yields the next character, or `None` at the end.
    pub fn next(&mut self) -> (res: Option<char>)
        ensures
            old(self).remaining().len() == 0 ==> res.is_none() && final(self).remaining()
                == old(self).remaining(),
            old(self).remaining().len() > 0 ==> res == Some(old(self).remaining()[0])
                && final(self).remaining() == old(self).remaining().drop_first(),
    {
        proof {
            use_type_invariant(&*self);
        }
        if let Some(c) = self.mapped.get(self.taken) {
            self.taken = self.taken + 1;
            assert(final(self).remaining() =~= old(self).remaining().drop_first());
            return Some(c);
        }
        assert(self.mapped@.skip(self.taken as int) =~= Seq::<char>::empty());
        while self.next < self.chars.len()
            invariant
                self.next <= self.chars@.len(),
                self.taken <= self.mapped@.len(),
                self.chars == old(self).chars,
                self.mapped@.skip(self.taken as int) =~= Seq::<char>::empty(),
                self.remaining() == old(self).remaining(),
            decreases self.chars.len() - self.next,
        {
            let ghost before = self.remaining();
            let ghost rest = self.chars@.skip(self.next as int);
            proof {
                assert(rest.drop_first() == self.chars@.skip(self.next + 1));
                assert(before =~= fold_of(rest[0]) + fold_all(rest.drop_first()));
            }
            let e = lower_no_accent_char(self.chars[self.next]);
            self.taken = 0;
            self.mapped = e;
            self.next = self.next + 1;
            assert(self.mapped@.skip(0) == self.mapped@);
            if let Some(c) = self.mapped.get(0) {
                self.taken = 1;
                assert(final(self).remaining() =~= before.drop_first());
                return Some(c);
            }
            assert(self.mapped@ =~= Seq::<char>::empty());
            assert(self.remaining() =~= before);
        }
        assert(self.chars@.skip(self.next as int) =~= Seq::<char>::empty());
        assert(self.remaining() =~= Seq::<char>::empty());
        None
    }

    /// All that the cursor has yet to yield, as a vector.
    pub fn drain(self) -> (out: Vec<char>)
        ensures
            out@ == self.remaining(),
    {
        let mut it = self;
        let mut out: Vec<char> = Vec::new();
        loop
            invariant
                out@ + it.remaining() == self.remaining(),
            decreases it.remaining().len(),
        {
            let ghost before = it.remaining();
            match it.next() {
                Some(c) => {
                    assert(out@.push(c) + before.drop_first() =~= out@ + before);
                    out.push(c);
                },
                None => {
                    assert(out@ + before =~= out@);
                    return out;
                },
            }
        }
    }

    /// All that the cursor has yet to yield, as a vector. The cursor stays
    /// where it is.
    pub fn rest(&self) -> (out: Vec<char>)
        ensures
            out@ == self.remaining(),
    {
        self.clone().drain()
    }

    /// All that the cursor has yet to yield, as a string.
    pub fn collect(self) -> (out: String)
        ensures
            out@ == self.remaining(),
    {
        let v = self.drain();
        string_of(v.as_slice())
    }

    /// Whether two cursors have the same characters yet to yield.
    pub fn same(&self, other: &MappedChars) -> (res: bool)
        ensures
            res == (self.remaining() == other.remaining()),
    {
        let l = self.rest();
        let r = other.rest();
        same_chars(l.as_slice(), r.as_slice())
    }

    /// The lexicographic order of what two cursors have yet to yield, as
    /// the standard library's ordering value.
    pub fn cmp(&self, other: &MappedChars) -> (res: Ordering)
        ensures
            res == ordering_of(lex_order(self.remaining(), other.remaining())),
    {
        to_ordering(self.order(other))
    }

    /// The lexicographic order of what two cursors have yet to yield.
    pub fn order(&self, other: &MappedChars) -> (res: Order)
        ensures
            res == lex_order(self.remaining(), other.remaining()),
    {
        let l = self.rest();
        let r = other.rest();
        compare_chars(l.as_slice(), r.as_slice())
    }
}

impl Clone for MappedChars {
    /// A second cursor at the same place, which moves on its own.
    fn clone(&self) -> (out: MappedChars)
        ensures
            out.remaining() == self.remaining(),
    {
        proof {
            use_type_invariant(self);
        }
        let out = MappedChars {
            chars: self.chars.clone(),
            next: self.next,
            mapped: self.mapped,
            taken: self.taken,
        };
        assert(out.chars@ == self.chars@);
        out
    }
}

impl PartialEq for MappedChars {
    fn eq(&self, other: &MappedChars) -> (res: bool) {
        self.same(other)
    }
}

impl PartialEqSpecImpl for MappedChars {
    open spec fn obeys_eq_spec() -> bool {
        true
    }

    open spec fn eq_spec(&self, other: &MappedChars) -> bool {
        self.remaining() == other.remaining()
    }
}

impl PartialOrd for MappedChars {
    fn partial_cmp(&self, other: &MappedChars) -> (res: Option<Ordering>) {
        Some(self.cmp(other))
    }
}

impl PartialOrdSpecImpl for MappedChars {
    open spec fn obeys_partial_cmp_spec() -> bool {
        true
    }

    open spec fn partial_cmp_spec(&self, other: &MappedChars) -> Option<Ordering> {
        Some(ordering_of(lex_order(self.remaining(), other.remaining())))
    }
}

/// A cursor over the folds of the characters of `s`.
pub fn lower_no_accent_chars(s: &str) -> (it: MappedChars)
    ensures
        it.remaining() == fold_all(s@),
{
    let it = MappedChars { chars: chars_of(s), next: 0, mapped: FoldEntry::Empty, taken: 0 };
    assert(it.mapped@.skip(0) + fold_all(it.chars@.skip(0)) =~= fold_all(s@)) by {
        assert(it.chars@.skip(0) == s@);
    }
    it
}

/// Folds every character of `chars` and joins the results.
pub fn fold_chars(chars: &[char]) -> (out: Vec<char>)
    ensures
        out@ == fold_all(chars@),
{
    let it = MappedChars {
        chars: slice_to_vec(chars),
        next: 0,
        mapped: FoldEntry::Empty,
        taken: 0,
    };
    assert(it.mapped@.skip(0) + fold_all(it.chars@.skip(0)) =~= fold_all(chars@)) by {
        assert(it.chars@.skip(0) == chars@);
    }
    it.drain()
}

} // verus!
