//! A table of folds, built once and then only read.

use vstd::prelude::*;
use crate::char_map::lower_no_accent::{fold_all, fold_of, lower_no_accent_char, FoldEntry};

verus! {

/// One more than the greatest code point.
pub const CODE_POINTS: u32 = 0x110000;

/// The folds of the characters below some code point, indexed by code
/// point.
pub struct FoldTable {
    entries: Vec<FoldEntry>,
}

impl FoldTable {
    /// How many code points the table covers.
    pub closed spec fn size(&self) -> nat {
        self.entries@.len()
    }

    /// Every slot of a character holds the fold of that character.
    #[verifier::type_invariant]
    closed spec fn wf(&self) -> bool {
        forall|c: char|
            (c as u32) < self.entries@.len() ==> (#[trigger] self.entries@[c as u32 as int])@
                == fold_of(c)
    }

    /// How many code points the table covers.
    pub fn len(&self) -> (n: usize)
        ensures
            n == self.size(),
    {
        self.entries.len()
    }

    /// Builds the table for the code points below `limit`.
    pub fn build(limit: u32) -> (table: FoldTable)
        ensures
            table.size() == limit,
    {
        let mut entries: Vec<FoldEntry> = Vec::new();
        let mut i: u32 = 0;
        while i < limit
            invariant
                i <= limit,
                entries@.len() == i,
                forall|c: char| (c as u32) < i ==> (#[trigger] entries@[c as u32 as int])@ == fold_of(c),
            decreases limit - i,
        {
            let found = char::from_u32(i);
            let e = match found {
                Some(c) => lower_no_accent_char(c),
                None => FoldEntry::Empty,
            };
            proof {
                assert forall|c: char| (c as u32) < i + 1 implies (#[trigger] entries@.push(
                    e,
                )[c as u32 as int])@ == fold_of(c) by {
                    if c as u32 == i {
                        vstd::utf8::char_is_scalar(c);
                        vstd::utf8::char_u32_cast(c, i);
                        vstd::utf8::char_u32_cast(found.unwrap(), i);
                    } else {
                        assert(entries@.push(e)[c as u32 as int] == entries@[c as u32 as int]);
                    }
                }
            }
            entries.push(e);
            i = i + 1;
        }
        FoldTable { entries }
    }

    /// Builds the table for every code point.
    pub fn new() -> (table: FoldTable)
        ensures
            table.size() == CODE_POINTS,
    {
        FoldTable::build(CODE_POINTS)
    }

    /// The fold of `c`: read from the table where the table covers `c`,
    /// computed where it does not.
    pub fn fold(&self, c: char) -> (e: FoldEntry)
        ensures
            e@ == fold_of(c),
    {
        proof {
            use_type_invariant(self);
        }
        let i = c as u32;
        if (i as usize) < self.entries.len() {
            self.entries[i as usize]
        } else {
            lower_no_accent_char(c)
        }
    }

    /// Folds every character of `chars` and joins the results.
    pub fn fold_chars(&self, chars: &[char]) -> (out: Vec<char>)
        ensures
            out@ == fold_all(chars@),
    {
        let mut out: Vec<char> = Vec::new();
        let mut i: usize = 0;
        assert(chars@.skip(0) == chars@);
        while i < chars.len()
            invariant
                i <= chars.len(),
                out@ + fold_all(chars@.skip(i as int)) == fold_all(chars@),
            decreases chars.len() - i,
        {
            let e = self.fold(chars[i]);
            let ghost base = out@;
            let n = e.len();
            let mut j: usize = 0;
            while j < n
                invariant
                    j <= n,
                    n == e@.len(),
                    out@ == base + e@.take(j as int),
                decreases n - j,
            {
                let c = e.get(j);
                out.push(c.unwrap());
                assert(out@ =~= base + e@.take(j + 1));
                j = j + 1;
            }
            proof {
                assert(e@.take(n as int) == e@);
                assert(chars@.skip(i as int).drop_first() == chars@.skip(i + 1));
                assert((base + e@) + fold_all(chars@.skip(i + 1)) =~= base + (e@ + fold_all(
                    chars@.skip(i + 1),
                )));
            }
            i = i + 1;
        }
        assert(chars@.skip(i as int) =~= Seq::<char>::empty());
        assert(out@ + Seq::<char>::empty() =~= out@);
        out
    }
}

} // verus!
