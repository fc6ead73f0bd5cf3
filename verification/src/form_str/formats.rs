//! The formats that come with the crate.

use vstd::prelude::*;
use vstd::string::StrSliceExecFns;
use std::borrow::Cow;
use crate::form_str::{cow_str, Format, FormatDefault, FormatErr};
use crate::fs::{
    filename_verdict, format_sub_path, joined_trimmed, segments, sub_path_verdict,
    validate_filename,
};
use crate::unicode::{lowercased, to_lowercase, to_uppercase, trim, trimmed, uppercased};

verus! {

/// Accepts valid file names, and trims them.
#[derive(Clone, Copy, Debug, Default)]
pub struct Filename;

impl Format for Filename {
    open spec fn formatted(&self, s: Seq<char>) -> Result<Seq<char>, FormatErr> {
        match filename_verdict(s) {
            Ok(t) => Ok(t),
            Err(e) => Err(FormatErr::Fs(e)),
        }
    }

    fn format<'a>(&self, s: Cow<'a, str>) -> (res: Result<Cow<'a, str>, FormatErr>) {
        match s {
            Cow::Borrowed(b) => match validate_filename(b) {
                Ok(v) => Ok(Cow::Borrowed(v)),
                Err(e) => Err(FormatErr::Fs(e)),
            },
            Cow::Owned(o) => match validate_filename(o.as_str()) {
                Ok(v) => Ok(Cow::Owned(v.to_owned())),
                Err(e) => Err(FormatErr::Fs(e)),
            },
        }
    }
}

impl FormatDefault for Filename {

}

/// Applies the inner format, then makes the string lowercase.
#[derive(Clone, Copy, Debug, Default)]
pub struct Lower<F>(pub F);

impl<F: Format> Format for Lower<F> {
    open spec fn formatted(&self, s: Seq<char>) -> Result<Seq<char>, FormatErr> {
        match self.0.formatted(s) {
            Ok(t) => Ok(lowercased(t)),
            Err(e) => Err(e),
        }
    }

    fn format<'a>(&self, s: Cow<'a, str>) -> (res: Result<Cow<'a, str>, FormatErr>) {
        match self.0.format(s) {
            Ok(t) => Ok(Cow::Owned(to_lowercase(cow_str(&t)))),
            Err(e) => Err(e),
        }
    }
}

impl<F: FormatDefault> FormatDefault for Lower<F> {

}

/// Applies the inner format, then refuses a string of more than `N`
/// characters.
#[derive(Clone, Copy, Debug, Default)]
pub struct MaxLen<const N: usize, F>(pub F);

impl<const N: usize, F: Format> Format for MaxLen<N, F> {
    open spec fn formatted(&self, s: Seq<char>) -> Result<Seq<char>, FormatErr> {
        match self.0.formatted(s) {
            Ok(t) => if t.len() > N {
                Err(FormatErr::MaxLen(N))
            } else {
                Ok(t)
            },
            Err(e) => Err(e),
        }
    }

    fn format<'a>(&self, s: Cow<'a, str>) -> (res: Result<Cow<'a, str>, FormatErr>) {
        match self.0.format(s) {
            Ok(t) => {
                let count = cow_str(&t).unicode_len();
                if count > N {
                    Err(FormatErr::MaxLen(N))
                } else {
                    Ok(t)
                }
            },
            Err(e) => Err(e),
        }
    }
}

impl<const N: usize, F: FormatDefault> FormatDefault for MaxLen<N, F> {

}

/// Applies the inner format, then refuses a string of fewer than `N`
/// characters.
#[derive(Clone, Copy, Debug, Default)]
pub struct MinLen<const N: usize, F>(pub F);

impl<const N: usize, F: Format> Format for MinLen<N, F> {
    open spec fn formatted(&self, s: Seq<char>) -> Result<Seq<char>, FormatErr> {
        match self.0.formatted(s) {
            Ok(t) => if t.len() >= N {
                Ok(t)
            } else {
                Err(FormatErr::MinLen)
            },
            Err(e) => Err(e),
        }
    }

    fn format<'a>(&self, s: Cow<'a, str>) -> (res: Result<Cow<'a, str>, FormatErr>) {
        match self.0.format(s) {
            Ok(t) => {
                let count = cow_str(&t).unicode_len();
                if count >= N {
                    Ok(t)
                } else {
                    Err(FormatErr::MinLen)
                }
            },
            Err(e) => Err(e),
        }
    }
}

/// Accepts valid relative paths such as `sub_dir/text.txt`, and joins their
/// trimmed segments.
#[derive(Clone, Copy, Debug, Default)]
pub struct SubPath;

impl Format for SubPath {
    open spec fn formatted(&self, s: Seq<char>) -> Result<Seq<char>, FormatErr> {
        match sub_path_verdict(s) {
            Ok(_) => Ok(joined_trimmed(segments(s))),
            Err(e) => Err(FormatErr::Fs(e)),
        }
    }

    fn format<'a>(&self, s: Cow<'a, str>) -> (res: Result<Cow<'a, str>, FormatErr>) {
        match format_sub_path(cow_str(&s)) {
            Ok(t) => Ok(Cow::Owned(t)),
            Err(e) => Err(FormatErr::Fs(e)),
        }
    }
}

/// Applies the inner format, then trims the string.
#[derive(Clone, Copy, Debug, Default)]
pub struct Trim<F>(pub F);

impl<F: Format> Format for Trim<F> {
    open spec fn formatted(&self, s: Seq<char>) -> Result<Seq<char>, FormatErr> {
        match self.0.formatted(s) {
            Ok(t) => Ok(trimmed(t)),
            Err(e) => Err(e),
        }
    }

    fn format<'a>(&self, s: Cow<'a, str>) -> (res: Result<Cow<'a, str>, FormatErr>) {
        match self.0.format(s) {
            Ok(Cow::Borrowed(b)) => Ok(Cow::Borrowed(trim(b))),
            Ok(Cow::Owned(o)) => Ok(Cow::Owned(trim(o.as_str()).to_owned())),
            Err(e) => Err(e),
        }
    }
}

impl<F: FormatDefault> FormatDefault for Trim<F> {

}

/// Applies the inner format, then makes the string uppercase.
#[derive(Clone, Copy, Debug, Default)]
pub struct Upper<F>(pub F);

impl<F: Format> Format for Upper<F> {
    open spec fn formatted(&self, s: Seq<char>) -> Result<Seq<char>, FormatErr> {
        match self.0.formatted(s) {
            Ok(t) => Ok(uppercased(t)),
            Err(e) => Err(e),
        }
    }

    fn format<'a>(&self, s: Cow<'a, str>) -> (res: Result<Cow<'a, str>, FormatErr>) {
        match self.0.format(s) {
            Ok(t) => Ok(Cow::Owned(to_uppercase(cow_str(&t)))),
            Err(e) => Err(e),
        }
    }
}

impl<F: FormatDefault> FormatDefault for Upper<F> {

}

} // verus!
