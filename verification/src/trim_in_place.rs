//! Trimming a string where it stands.

use vstd::prelude::*;
use std::borrow::Cow;
use crate::form_str::cow_str;
use crate::unicode::{trim, trimmed};

verus! {

/// Values that hold a string and can be trimmed where they stand.
pub trait TrimInPlace: Sized {
    /// Whether `after` is `self` with its string trimmed.
    spec fn is_trimmed_to(&self, after: &Self) -> bool;

    /// Removes leading and trailing whitespace, and hands the value back.
    fn trim_in_place(&mut self) -> (out: &mut Self)
        ensures
            (*old(self)).is_trimmed_to(&*out),
            *final(self) == *final(out),
    ;
}

impl TrimInPlace for String {
    open spec fn is_trimmed_to(&self, after: &Self) -> bool {
        after@ == trimmed(self@)
    }

    fn trim_in_place(&mut self) -> (out: &mut Self) {
        let new = trim(self.as_str()).to_owned();
        *self = new;
        self
    }
}

impl TrimInPlace for Box<str> {
    open spec fn is_trimmed_to(&self, after: &Self) -> bool {
        after@ == trimmed(self@)
    }

    fn trim_in_place(&mut self) -> (out: &mut Self) {
        let new = {
            let s: &str = &**self;
            trim(s).to_owned()
        };
        *self = new.into_boxed_str();
        self
    }
}

impl<'a> TrimInPlace for Cow<'a, str> {
    open spec fn is_trimmed_to(&self, after: &Self) -> bool {
        after@ == trimmed(self@)
    }

    fn trim_in_place(&mut self) -> (out: &mut Self) {
        let new = trim(cow_str(self)).to_owned();
        *self = Cow::Owned(new);
        self
    }
}

impl<T: TrimInPlace> TrimInPlace for Option<T> {
    open spec fn is_trimmed_to(&self, after: &Self) -> bool {
        match (*self, *after) {
            (Some(a), Some(b)) => a.is_trimmed_to(&b),
            (None, None) => true,
            _ => false,
        }
    }

    fn trim_in_place(&mut self) -> (out: &mut Self) {
        match self {
            Some(s) => {
                s.trim_in_place();
            },
            None => {},
        }
        self
    }
}

impl<T: TrimInPlace> TrimInPlace for &mut T {
    open spec fn is_trimmed_to(&self, after: &Self) -> bool {
        (**self).is_trimmed_to(&**after)
    }

    fn trim_in_place(&mut self) -> (out: &mut Self) {
        (**self).trim_in_place();
        self
    }
}

} // verus!
