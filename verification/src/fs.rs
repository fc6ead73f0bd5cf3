//! Validation of file names and of relative paths.

use vstd::prelude::*;
use vstd::string::{StrSliceExecFns, StringExecFns};
use crate::cmp::{eq_by, rule_eq_ci, EqExt};
use crate::text::chars_of;
use crate::unicode::{control, is_control, trim, trimmed};

verus! {

/// Why a file name or a path was refused.
#[derive(Clone, Copy, Debug, PartialEq)]
pub enum FsError {
    EmptySegment,
    EndsWithDot,
    Home,
    InvalidChar(char),
    ReservedName(&'static str),
    Root,
}

impl FsError {
    /// The text of the error.
    pub open spec fn text(&self) -> Seq<char> {
        match *self {
            FsError::EmptySegment => "empty segment"@,
            FsError::EndsWithDot => "filename ends with dot"@,
            FsError::Home => "path refer to ~"@,
            FsError::InvalidChar(c) => "invalid filename char "@.push(c),
            FsError::ReservedName(s) => "reserved file name "@ + s@,
            FsError::Root => "path cannot be root"@,
        }
    }

    /// The text of the error.
    pub fn message(&self) -> (out: String)
        ensures
            out@ == self.text(),
    {
        match *self {
            FsError::EmptySegment => String::from_str("empty segment"),
            FsError::EndsWithDot => String::from_str("filename ends with dot"),
            FsError::Home => String::from_str("path refer to ~"),
            FsError::InvalidChar(c) => {
                let mut out = String::from_str("invalid filename char ");
                out.push(c);
                out
            },
            FsError::ReservedName(s) => {
                let mut out = String::from_str("reserved file name ");
                out.append(s);
                out
            },
            FsError::Root => String::from_str("path cannot be root"),
        }
    }
}

/// How many device names are reserved.
pub const RESERVED_COUNT: usize = 22;

/// The reserved device names, in the order in which they are tried.
pub open spec fn reserved_name(i: nat) -> &'static str {
    if i == 0 {
        "CON"
    } else if i == 1 {
        "PRN"
    } else if i == 2 {
        "AUX"
    } else if i == 3 {
        "NUL"
    } else if i == 4 {
        "COM1"
    } else if i == 5 {
        "COM2"
    } else if i == 6 {
        "COM3"
    } else if i == 7 {
        "COM4"
    } else if i == 8 {
        "COM5"
    } else if i == 9 {
        "COM6"
    } else if i == 10 {
        "COM7"
    } else if i == 11 {
        "COM8"
    } else if i == 12 {
        "COM9"
    } else if i == 13 {
        "LPT1"
    } else if i == 14 {
        "LPT2"
    } else if i == 15 {
        "LPT3"
    } else if i == 16 {
        "LPT4"
    } else if i == 17 {
        "LPT5"
    } else if i == 18 {
        "LPT6"
    } else if i == 19 {
        "LPT7"
    } else if i == 20 {
        "LPT8"
    } else {
        "LPT9"
    }
}

/// The reserved device name at position `i`.
pub fn reserved(i: usize) -> (name: &'static str)
    requires
        i < RESERVED_COUNT,
    ensures
        name == reserved_name(i as nat),
{
    if i == 0 {
        "CON"
    } else if i == 1 {
        "PRN"
    } else if i == 2 {
        "AUX"
    } else if i == 3 {
        "NUL"
    } else if i == 4 {
        "COM1"
    } else if i == 5 {
        "COM2"
    } else if i == 6 {
        "COM3"
    } else if i == 7 {
        "COM4"
    } else if i == 8 {
        "COM5"
    } else if i == 9 {
        "COM6"
    } else if i == 10 {
        "COM7"
    } else if i == 11 {
        "COM8"
    } else if i == 12 {
        "COM9"
    } else if i == 13 {
        "LPT1"
    } else if i == 14 {
        "LPT2"
    } else if i == 15 {
        "LPT3"
    } else if i == 16 {
        "LPT4"
    } else if i == 17 {
        "LPT5"
    } else if i == 18 {
        "LPT6"
    } else if i == 19 {
        "LPT7"
    } else if i == 20 {
        "LPT8"
    } else {
        "LPT9"
    }
}

/// Whether a character may not stand in a file name.
pub open spec fn forbidden(c: char) -> bool {
    control(c) || (c as u32) < 31 || c == '<' || c == '>' || c == ':' || c == '"' || c == '/'
        || c == '\\' || c == '|' || c == '?' || c == '*'
}

/// The first character of `s` that may not stand in a file name.
pub open spec fn first_forbidden(s: Seq<char>) -> Option<char>
    decreases s.len(),
{
    if s.len() == 0 {
        None
    } else if forbidden(s[0]) {
        Some(s[0])
    } else {
        first_forbidden(s.drop_first())
    }
}

/// The position, from `from` on, of the first reserved name that equals
/// `s` when case is ignored.
pub open spec fn first_reserved(s: Seq<char>, from: nat) -> Option<nat>
    decreases RESERVED_COUNT - from,
{
    if from >= RESERVED_COUNT {
        None
    } else if eq_by(s, reserved_name(from)@, rule_eq_ci()) {
        Some(from)
    } else {
        first_reserved(s, from + 1)
    }
}

/// What the validation of a file name answers: the trimmed name, or the
/// first fault found. A forbidden character is looked for first, in the
/// name as given; then the trimmed name may not end with a dot nor be a
/// reserved device name in any case.
pub open spec fn filename_verdict(s: Seq<char>) -> Result<Seq<char>, FsError> {
    let t = trimmed(s);
    if first_forbidden(s) is Some {
        Err(FsError::InvalidChar(first_forbidden(s).unwrap()))
    } else if t.len() > 0 && t.last() == '.' {
        Err(FsError::EndsWithDot)
    } else if first_reserved(t, 0) is Some {
        Err(FsError::ReservedName(reserved_name(first_reserved(t, 0).unwrap())))
    } else {
        Ok(t)
    }
}

/// Whether `c` may not stand in a file name.
pub fn is_forbidden(c: char) -> (res: bool)
    ensures
        res == forbidden(c),
{
    is_control(c) || (c as u32) < 31 || c == '<' || c == '>' || c == ':' || c == '"' || c == '/'
        || c == '\\' || c == '|' || c == '?' || c == '*'
}

/// Validates a file name such as `test.txt` and returns it trimmed.
pub fn validate_filename(s: &str) -> (res: Result<&str, FsError>)
    ensures
        res is Ok == filename_verdict(s@) is Ok,
        res matches Ok(t) ==> filename_verdict(s@) == Ok::<Seq<char>, FsError>(t@),
        res matches Err(e) ==> filename_verdict(s@) == Err::<Seq<char>, FsError>(e),
{
    let chars = chars_of(s);
    let mut i: usize = 0;
    assert(chars@.skip(0) == chars@);
    while i < chars.len()
        invariant
            i <= chars.len(),
            chars@ == s@,
            first_forbidden(chars@) == first_forbidden(chars@.skip(i as int)),
        decreases chars.len() - i,
    {
        if is_forbidden(chars[i]) {
            return Err(FsError::InvalidChar(chars[i]));
        }
        assert(chars@.skip(i as int).drop_first() == chars@.skip(i + 1));
        i = i + 1;
    }
    let t = trim(s);
    let tc = chars_of(t);
    if tc.len() > 0 && tc[tc.len() - 1] == '.' {
        return Err(FsError::EndsWithDot);
    }
    let mut k: usize = 0;
    while k < RESERVED_COUNT
        invariant
            k <= RESERVED_COUNT,
            t@ == trimmed(s@),
            first_forbidden(s@) is None,
            !(t@.len() > 0 && t@.last() == '.'),
            first_reserved(t@, 0) == first_reserved(t@, k as nat),
        decreases RESERVED_COUNT - k,
    {
        let name = reserved(k);
        if t.eq_ci(name) {
            return Err(FsError::ReservedName(name));
        }
        k = k + 1;
    }
    Ok(t)
}

/// Whether a character separates the segments of a path.
pub open spec fn is_separator(c: char) -> bool {
    c == '/' || c == '\\'
}

/// How many characters stand before the first separator of `s`.
pub open spec fn first_segment_len(s: Seq<char>) -> nat
    decreases s.len(),
{
    if s.len() == 0 || is_separator(s[0]) {
        0
    } else {
        1 + first_segment_len(s.drop_first())
    }
}

/// The segments of a path: what stands between its separators. There is
/// always at least one, and a segment may be empty.
pub open spec fn segments(s: Seq<char>) -> Seq<Seq<char>>
    decreases s.len(),
{
    let n = first_segment_len(s);
    if n >= s.len() {
        seq![s]
    } else {
        seq![s.take(n as int)] + segments(s.skip(n as int + 1))
    }
}

/// What the validation of the segments answers: the first fault found, each
/// segment being trimmed, then required not to be empty and to be a valid
/// file name.
pub open spec fn segments_verdict(segs: Seq<Seq<char>>) -> Result<(), FsError>
    decreases segs.len(),
{
    if segs.len() == 0 {
        Ok(())
    } else if trimmed(segs[0]).len() == 0 {
        Err(FsError::EmptySegment)
    } else if filename_verdict(trimmed(segs[0])) is Err {
        Err(filename_verdict(trimmed(segs[0]))->Err_0)
    } else {
        segments_verdict(segs.drop_first())
    }
}

/// What the validation of a relative path answers. The trimmed path may
/// not start with a separator nor with `~/`, and each of its segments must
/// pass.
pub open spec fn sub_path_verdict(s: Seq<char>) -> Result<(), FsError> {
    let t = trimmed(s);
    if t.len() > 0 && is_separator(t[0]) {
        Err(FsError::Root)
    } else if t.len() >= 2 && t[0] == '~' && t[1] == '/' {
        Err(FsError::Home)
    } else {
        segments_verdict(segments(t))
    }
}

/// The trimmed segments, one after the other with nothing between them.
pub open spec fn joined_trimmed(segs: Seq<Seq<char>>) -> Seq<char>
    decreases segs.len(),
{
    if segs.len() == 0 {
        Seq::empty()
    } else {
        joined_trimmed(segs.drop_last()) + trimmed(segs.last())
    }
}

/// The views of a sequence of strings.
pub open spec fn views(v: Seq<&str>) -> Seq<Seq<char>> {
    Seq::new(v.len(), |i: int| v[i]@)
}

/// The first segment of `s` ends at `k` when no separator stands before `k`
/// and `k` is a separator or the end.
pub proof fn lemma_first_segment_len(s: Seq<char>, k: int)
    requires
        0 <= k <= s.len(),
        forall|j: int| 0 <= j < k ==> !is_separator(#[trigger] s[j]),
        k == s.len() || is_separator(s[k]),
    ensures
        first_segment_len(s) == k,
    decreases k,
{
    if k > 0 {
        let t = s.drop_first();
        assert forall|j: int| 0 <= j < k - 1 implies !is_separator(#[trigger] t[j]) by {
            assert(t[j] == s[j + 1]);
        }
        lemma_first_segment_len(t, k - 1);
    }
}

/// Cuts a path into its segments.
pub fn split_path<'a>(s: &'a str) -> (out: Vec<&'a str>)
    ensures
        views(out@) == segments(s@),
{
    let chars = chars_of(s);
    let n = chars.len();
    let mut out: Vec<&'a str> = Vec::new();
    let mut start: usize = 0;
    let mut i: usize = 0;
    assert(views(out@) =~= Seq::<Seq<char>>::empty());
    assert(s@.skip(0) == s@);
    while i < n
        invariant
            n == chars@.len(),
            chars@ == s@,
            start <= i <= n,
            forall|j: int| start <= j < i ==> !is_separator(#[trigger] s@[j]),
            segments(s@) == views(out@) + segments(s@.skip(start as int)),
        decreases n - i,
    {
        if chars[i] == '/' || chars[i] == '\\' {
            let seg = s.substring_char(start, i);
            proof {
                let rest = s@.skip(start as int);
                assert forall|j: int| 0 <= j < i - start implies !is_separator(
                    #[trigger] rest[j],
                ) by {
                    assert(rest[j] == s@[start + j]);
                }
                lemma_first_segment_len(rest, i - start);
                assert(rest.take(i - start) == s@.subrange(start as int, i as int));
                assert(rest.skip(i - start + 1) == s@.skip(i + 1));
                assert(views(out@.push(seg)) =~= views(out@) + seq![seg@]);
            }
            out.push(seg);
            start = i + 1;
        }
        i = i + 1;
    }
    let seg = s.substring_char(start, n);
    proof {
        let rest = s@.skip(start as int);
        assert forall|j: int| 0 <= j < n - start implies !is_separator(#[trigger] rest[j]) by {
            assert(rest[j] == s@[start + j]);
        }
        lemma_first_segment_len(rest, n - start);
        assert(rest == s@.subrange(start as int, n as int));
        assert(views(out@.push(seg)) =~= views(out@) + seq![seg@]);
    }
    out.push(seg);
    out
}

/// Validates a path to a file below some directory: it may not be rooted,
/// start from the home directory, hold an empty segment, nor a segment
/// that is no valid file name.
pub fn validate_sub_path(s: &str) -> (res: Result<(), FsError>)
    ensures
        res == sub_path_verdict(s@),
{
    let t = trim(s);
    let tc = chars_of(t);
    if tc.len() > 0 && (tc[0] == '/' || tc[0] == '\\') {
        return Err(FsError::Root);
    }
    if tc.len() >= 2 && tc[0] == '~' && tc[1] == '/' {
        return Err(FsError::Home);
    }
    let segs = split_path(t);
    let mut i: usize = 0;
    assert(views(segs@).skip(0) == views(segs@));
    while i < segs.len()
        invariant
            i <= segs.len(),
            t@ == trimmed(s@),
            !(t@.len() > 0 && is_separator(t@[0])),
            !(t@.len() >= 2 && t@[0] == '~' && t@[1] == '/'),
            views(segs@) == segments(t@),
            segments_verdict(segments(t@)) == segments_verdict(views(segs@).skip(i as int)),
        decreases segs.len() - i,
    {
        let seg = trim(segs[i]);
        proof {
            assert(views(segs@).skip(i as int)[0] == segs@[i as int]@);
            assert(views(segs@).skip(i as int).drop_first() == views(segs@).skip(i + 1));
        }
        if seg.is_empty() {
            return Err(FsError::EmptySegment);
        }
        match validate_filename(seg) {
            Err(e) => {
                return Err(e);
            },
            Ok(_) => {},
        }
        i = i + 1;
    }
    Ok(())
}

/// Validates a path as [`validate_sub_path`] does and, where it passes,
/// returns its segments, each trimmed, joined with nothing between them.
pub fn format_sub_path(s: &str) -> (res: Result<String, FsError>)
    ensures
        sub_path_verdict(s@) matches Err(e) ==> res == Err::<String, FsError>(e),
        sub_path_verdict(s@) is Ok ==> res is Ok && res.unwrap()@ == joined_trimmed(
            segments(s@),
        ),
{
    match validate_sub_path(s) {
        Err(e) => {
            return Err(e);
        },
        Ok(_) => {},
    }
    let segs = split_path(s);
    let mut out = String::new();
    let mut i: usize = 0;
    assert(views(segs@).take(0) =~= Seq::<Seq<char>>::empty());
    while i < segs.len()
        invariant
            i <= segs.len(),
            out@ == joined_trimmed(views(segs@).take(i as int)),
        decreases segs.len() - i,
    {
        proof {
            assert(views(segs@).take(i + 1).drop_last() == views(segs@).take(i as int));
            assert(views(segs@).take(i + 1).last() == segs@[i as int]@);
        }
        out.append(trim(segs[i]));
        i = i + 1;
    }
    assert(views(segs@).take(i as int) == views(segs@));
    Ok(out)
}

} // verus!
