//! Turning empty strings into `None`.

use vstd::prelude::*;
use std::borrow::Cow;
use crate::form_str::{cow_str, FormStr};
use crate::unicode::{trim, trimmed};

verus! {

/// Values that hold a string and can be dropped when the string is empty.
pub trait NoneIfEmpty: Sized {
    /// What is handed back where the string is not empty.
    type Output;

    /// Whether the string is empty.
    spec fn blank(self) -> bool;

    /// Whether the string is empty once trimmed.
    spec fn trim_blank(self) -> bool;

    /// The value that is handed back.
    spec fn kept(self) -> Self::Output;

    /// `None` where the string is empty, else the value.
    fn none_if_empty(self) -> (res: Option<Self::Output>)
        ensures
            res == if self.blank() {
                None
            } else {
                Some(self.kept())
            },
    ;

    /// `None` where the string is empty once trimmed, else the value as it
    /// was given.
    fn none_if_trim_empty(self) -> (res: Option<Self::Output>)
        ensures
            res == if self.trim_blank() {
                None
            } else {
                Some(self.kept())
            },
    ;
}

impl NoneIfEmpty for Box<str> {
    type Output = Box<str>;

    open spec fn blank(self) -> bool {
        self@.len() == 0
    }

    open spec fn trim_blank(self) -> bool {
        trimmed(self@).len() == 0
    }

    open spec fn kept(self) -> Box<str> {
        self
    }

    fn none_if_empty(self) -> (res: Option<Box<str>>) {
        let empty = {
            let s: &str = &*self;
            s.is_empty()
        };
        if empty {
            None
        } else {
            Some(self)
        }
    }

    fn none_if_trim_empty(self) -> (res: Option<Box<str>>) {
        let empty = {
            let s: &str = &*self;
            trim(s).is_empty()
        };
        if empty {
            None
        } else {
            Some(self)
        }
    }
}

impl<'a> NoneIfEmpty for Cow<'a, str> {
    type Output = Cow<'a, str>;

    open spec fn blank(self) -> bool {
        self@.len() == 0
    }

    open spec fn trim_blank(self) -> bool {
        trimmed(self@).len() == 0
    }

    open spec fn kept(self) -> Cow<'a, str> {
        self
    }

    fn none_if_empty(self) -> (res: Option<Cow<'a, str>>) {
        if cow_str(&self).is_empty() {
            None
        } else {
            Some(self)
        }
    }

    fn none_if_trim_empty(self) -> (res: Option<Cow<'a, str>>) {
        if trim(cow_str(&self)).is_empty() {
            None
        } else {
            Some(self)
        }
    }
}

impl<F> NoneIfEmpty for FormStr<F> {
    type Output = FormStr<F>;

    open spec fn blank(self) -> bool {
        self@.len() == 0
    }

    open spec fn trim_blank(self) -> bool {
        trimmed(self@).len() == 0
    }

    open spec fn kept(self) -> FormStr<F> {
        self
    }

    fn none_if_empty(self) -> (res: Option<FormStr<F>>) {
        if self.as_str().is_empty() {
            None
        } else {
            Some(self)
        }
    }

    fn none_if_trim_empty(self) -> (res: Option<FormStr<F>>) {
        if trim(self.as_str()).is_empty() {
            None
        } else {
            Some(self)
        }
    }
}

impl<T: NoneIfEmpty> NoneIfEmpty for Option<T> {
    type Output = T::Output;

    open spec fn blank(self) -> bool {
        match self {
            Some(s) => s.blank(),
            None => true,
        }
    }

    open spec fn trim_blank(self) -> bool {
        match self {
            Some(s) => s.trim_blank(),
            None => true,
        }
    }

    open spec fn kept(self) -> T::Output {
        self->Some_0.kept()
    }

    fn none_if_empty(self) -> (res: Option<T::Output>) {
        match self {
            Some(s) => s.none_if_empty(),
            None => None,
        }
    }

    fn none_if_trim_empty(self) -> (res: Option<T::Output>) {
        match self {
            Some(s) => s.none_if_trim_empty(),
            None => None,
        }
    }
}

impl<'a> NoneIfEmpty for &'a str {
    type Output = &'a str;

    open spec fn blank(self) -> bool {
        self@.len() == 0
    }

    open spec fn trim_blank(self) -> bool {
        trimmed(self@).len() == 0
    }

    open spec fn kept(self) -> &'a str {
        self
    }

    fn none_if_empty(self) -> (res: Option<&'a str>) {
        if self.is_empty() {
            None
        } else {
            Some(self)
        }
    }

    fn none_if_trim_empty(self) -> (res: Option<&'a str>) {
        if trim(self).is_empty() {
            None
        } else {
            Some(self)
        }
    }
}

impl NoneIfEmpty for String {
    type Output = String;

    open spec fn blank(self) -> bool {
        self@.len() == 0
    }

    open spec fn trim_blank(self) -> bool {
        trimmed(self@).len() == 0
    }

    open spec fn kept(self) -> String {
        self
    }

    fn none_if_empty(self) -> (res: Option<String>) {
        if self.as_str().is_empty() {
            None
        } else {
            Some(self)
        }
    }

    fn none_if_trim_empty(self) -> (res: Option<String>) {
        if trim(self.as_str()).is_empty() {
            None
        } else {
            Some(self)
        }
    }
}

} // verus!
