//! Why a configuration-editor setter rejected an input.
//!
//! Each variant carries the offending value, so the GUI can say what
//! was wrong ("size must be in 1..=256, got 0") rather than just "invalid
//! input".

use vstd::prelude::*;

use crate::text::chars_of;

verus! {

/// Why a [`crate::editor::ConfigEditor`] setter rejected an input.
#[derive(Debug, Clone)]
pub enum ValidationError {
    /// A pixel size was zero or above its maximum.
    OutOfRange {
        /// What was requested.
        got: u32,
        /// Largest accepted value (inclusive).
        max: u32,
    },
    /// A border color was not of the form `#RRGGBB` or `#RRGGBBAA`.
    BadColor(String),
    /// An application-rule glob pattern did not compile.
    BadGlob {
        /// The offending pattern.
        pattern: String,
        /// `globset`'s reason.
        reason: String,
    },
    /// An index outside the rules list.
    BadIndex {
        /// The bad index.
        got: usize,
        /// The list's length.
        len: usize,
    },
    /// A 1-based group outside `1..=4`.
    BadGroup(u8),
}

/// Abstract value of a [`ValidationError`].
pub enum ValidationErrorView {
    /// See [`ValidationError::OutOfRange`].
    OutOfRange { got: u32, max: u32 },
    /// See [`ValidationError::BadColor`].
    BadColor(Seq<char>),
    /// See [`ValidationError::BadGlob`].
    BadGlob { pattern: Seq<char>, reason: Seq<char> },
    /// See [`ValidationError::BadIndex`].
    BadIndex { got: usize, len: usize },
    /// See [`ValidationError::BadGroup`].
    BadGroup(u8),
}

impl View for ValidationError {
    type V = ValidationErrorView;

    open spec fn view(&self) -> ValidationErrorView {
        match self {
            ValidationError::OutOfRange { got, max } => ValidationErrorView::OutOfRange {
                got: *got,
                max: *max,
            },
            ValidationError::BadColor(c) => ValidationErrorView::BadColor(c@),
            ValidationError::BadGlob { pattern, reason } => ValidationErrorView::BadGlob {
                pattern: pattern@,
                reason: reason@,
            },
            ValidationError::BadIndex { got, len } => ValidationErrorView::BadIndex {
                got: *got,
                len: *len,
            },
            ValidationError::BadGroup(g) => ValidationErrorView::BadGroup(*g),
        }
    }
}

impl PartialEq for ValidationError {
    fn eq(&self, other: &Self) -> (r: bool) {
        match self {
            ValidationError::OutOfRange { got, max } => match other {
                ValidationError::OutOfRange { got: g2, max: m2 } => *got == *g2 && *max == *m2,
                _ => false,
            },
            ValidationError::BadColor(c) => match other {
                ValidationError::BadColor(c2) => *c == *c2,
                _ => false,
            },
            ValidationError::BadGlob { pattern, reason } => match other {
                ValidationError::BadGlob { pattern: p2, reason: r2 } => *pattern == *p2 && *reason
                    == *r2,
                _ => false,
            },
            ValidationError::BadIndex { got, len } => match other {
                ValidationError::BadIndex { got: g2, len: l2 } => *got == *g2 && *len == *l2,
                _ => false,
            },
            ValidationError::BadGroup(g) => match other {
                ValidationError::BadGroup(g2) => *g == *g2,
                _ => false,
            },
        }
    }
}

impl vstd::std_specs::cmp::PartialEqSpecImpl for ValidationError {
    open spec fn obeys_eq_spec() -> bool {
        true
    }

    open spec fn eq_spec(&self, other: &Self) -> bool {
        self@ == other@
    }
}

impl Eq for ValidationError {}

/// An ASCII hexadecimal digit.
pub open spec fn is_hex_digit(c: char) -> bool {
    ||| '0' <= c <= '9'
    ||| 'a' <= c <= 'f'
    ||| 'A' <= c <= 'F'
}

/// `#` followed by exactly six or eight hexadecimal digits.
pub open spec fn canonical_color(s: Seq<char>) -> bool {
    &&& s.len() == 7 || s.len() == 9
    &&& s[0] == '#'
    &&& forall|i: int| 1 <= i < s.len() ==> is_hex_digit(#[trigger] s[i])
}

/// A 1-based group the configuration accepts.
pub open spec fn group_ok(g: u8) -> bool {
    1 <= g <= 4
}

impl ValidationError {
    /// Accepts `#RRGGBB` and `#RRGGBBAA` only.
    pub fn check_color(s: &str) -> (r: Result<(), Self>)
        ensures
            match r {
                Ok(()) => canonical_color(s@),
                Err(e) => !canonical_color(s@) && e@ == ValidationErrorView::BadColor(s@),
            },
    {
        let cs = chars_of(s);
        let n = cs.len();
        if n == 0 || cs[0] != '#' {
            return Err(ValidationError::BadColor(s.to_owned()));
        }
        if n != 7 && n != 9 {
            return Err(ValidationError::BadColor(s.to_owned()));
        }
        for i in 1..n
            invariant
                n == cs@.len() == s@.len(),
                cs@ == s@,
                forall|j: int| 1 <= j < i ==> is_hex_digit(#[trigger] s@[j]),
        {
            let c = cs[i];
            if !(('0' <= c && c <= '9') || ('a' <= c && c <= 'f') || ('A' <= c && c <= 'F')) {
                return Err(ValidationError::BadColor(s.to_owned()));
            }
        }
        Ok(())
    }

    /// Accepts `1..=max`.
    pub fn check_size(got: u32, max: u32) -> (r: Result<(), Self>)
        ensures
            match r {
                Ok(()) => 1 <= got <= max,
                Err(e) => !(1 <= got <= max) && e@ == ValidationErrorView::OutOfRange { got, max },
            },
    {
        if got == 0 || got > max {
            return Err(ValidationError::OutOfRange { got, max });
        }
        Ok(())
    }

    /// Accepts a 1-based group in `1..=4`.
    pub fn check_group(g: u8) -> (r: Result<(), Self>)
        ensures
            match r {
                Ok(()) => group_ok(g),
                Err(e) => !group_ok(g) && e@ == ValidationErrorView::BadGroup(g),
            },
    {
        if !(1 <= g && g <= 4) {
            return Err(ValidationError::BadGroup(g));
        }
        Ok(())
    }
}

} // verus!
