//! The atomic units that parsers read.
use vstd::prelude::*;

verus! {

/// A token: an atomic, copyable unit of input that can be compared for equality.
pub trait Token: Copy + Sized {
    /// Compares two tokens.
    fn token_eq(&self, other: &Self) -> (r: bool)
        ensures
            r == (*self == *other),
    ;
}

/// A token with a total order, as range matching needs.
pub trait OrderedToken: Token {
    /// The order on tokens: `self` comes no later than `other`.
    spec fn precedes(self, other: Self) -> bool;

    /// Decides `precedes`.
    fn token_le(&self, other: &Self) -> (r: bool)
        ensures
            r == self.precedes(*other),
    ;
}

impl Token for u8 {
    fn token_eq(&self, other: &Self) -> (r: bool) {
        *self == *other
    }
}

impl OrderedToken for u8 {
    open spec fn precedes(self, other: Self) -> bool {
        self <= other
    }

    fn token_le(&self, other: &Self) -> (r: bool) {
        *self <= *other
    }
}

impl Token for u16 {
    fn token_eq(&self, other: &Self) -> (r: bool) {
        *self == *other
    }
}

impl OrderedToken for u16 {
    open spec fn precedes(self, other: Self) -> bool {
        self <= other
    }

    fn token_le(&self, other: &Self) -> (r: bool) {
        *self <= *other
    }
}

impl Token for u32 {
    fn token_eq(&self, other: &Self) -> (r: bool) {
        *self == *other
    }
}

impl OrderedToken for u32 {
    open spec fn precedes(self, other: Self) -> bool {
        self <= other
    }

    fn token_le(&self, other: &Self) -> (r: bool) {
        *self <= *other
    }
}

impl Token for char {
    fn token_eq(&self, other: &Self) -> (r: bool) {
        *self == *other
    }
}

impl OrderedToken for char {
    open spec fn precedes(self, other: Self) -> bool {
        (self as u32) <= (other as u32)
    }

    fn token_le(&self, other: &Self) -> (r: bool) {
        (*self as u32) <= (*other as u32)
    }
}

} // verus!
