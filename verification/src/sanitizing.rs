//! Removal of control characters that a text should not hold.

use vstd::prelude::*;
use std::borrow::Cow;
use crate::text::{chars_of, string_of};

verus! {

/// Whether a character may stay in a text: anything from the space on, and
/// the bell, backspace, tabs, form feed, line feed and carriage return.
pub open spec fn valid_char(c: char) -> bool {
    (c as u32) >= 32 || c == '\x07' || c == '\x08' || c == '\x0B' || c == '\x0C' || c == '\n'
        || c == '\r' || c == '\t'
}

/// The characters of `s` that may stay, in order.
pub open spec fn sanitized(s: Seq<char>) -> Seq<char>
    decreases s.len(),
{
    if s.len() == 0 {
        Seq::empty()
    } else if valid_char(s.last()) {
        sanitized(s.drop_last()).push(s.last())
    } else {
        sanitized(s.drop_last())
    }
}

/// Whether every character of `s` may stay.
pub open spec fn all_valid(s: Seq<char>) -> bool {
    forall|i: int| 0 <= i < s.len() ==> valid_char(#[trigger] s[i])
}

/// A text of which every character may stay is left as it is.
pub proof fn lemma_sanitized_all_valid(s: Seq<char>)
    requires
        all_valid(s),
    ensures
        sanitized(s) == s,
    decreases s.len(),
{
    if s.len() > 0 {
        assert(all_valid(s.drop_last())) by {
            assert forall|i: int| 0 <= i < s.drop_last().len() implies valid_char(
                #[trigger] s.drop_last()[i],
            ) by {
                assert(s.drop_last()[i] == s[i]);
            }
        }
        lemma_sanitized_all_valid(s.drop_last());
        assert(s.drop_last().push(s.last()) =~= s);
    } else {
        assert(s =~= Seq::<char>::empty());
    }
}

/// Whether `c` may stay in a text.
pub fn is_valid_char(c: char) -> (res: bool)
    ensures
        res == valid_char(c),
{
    (c as u32) >= 32 || c == '\x07' || c == '\x08' || c == '\x0B' || c == '\x0C' || c == '\n'
        || c == '\r' || c == '\t'
}

/// Removes the characters that may not stay. A text that holds none is
/// handed back as it is, borrowed.
pub fn sanitize<'a>(s: &'a str) -> (out: Cow<'a, str>)
    ensures
        out@ == sanitized(s@),
        all_valid(s@) <==> out is Borrowed,
        out matches Cow::Borrowed(b) ==> b@ == s@,
{
    let chars = chars_of(s);
    let mut keep: Vec<char> = Vec::new();
    let mut i: usize = 0;
    while i < chars.len()
        invariant
            i <= chars.len(),
            chars@ == s@,
            keep@ == sanitized(chars@.take(i as int)),
            keep@.len() == i <==> all_valid(chars@.take(i as int)),
            keep@.len() <= i,
        decreases chars.len() - i,
    {
        let c = chars[i];
        proof {
            let before = chars@.take(i as int);
            let after = chars@.take(i + 1);
            assert(after.drop_last() == before);
            assert(after.last() == c);
            if all_valid(after) {
                assert forall|k: int| 0 <= k < before.len() implies valid_char(
                    #[trigger] before[k],
                ) by {
                    assert(before[k] == after[k]);
                }
                assert(valid_char(after[i as int]));
            }
            if all_valid(before) && valid_char(c) {
                assert forall|k: int| 0 <= k < after.len() implies valid_char(
                    #[trigger] after[k],
                ) by {
                    if k < i {
                        assert(after[k] == before[k]);
                    }
                }
            }
        }
        if is_valid_char(c) {
            keep.push(c);
        }
        i = i + 1;
    }
    assert(chars@.take(i as int) == chars@);
    if keep.len() == chars.len() {
        proof {
            lemma_sanitized_all_valid(s@);
        }
        Cow::Borrowed(s)
    } else {
        Cow::Owned(string_of(keep.as_slice()))
    }
}

} // verus!
