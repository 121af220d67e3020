//! Order keys of real-valued readings.
//!
//! Prices and indicator values enter the library as keys that compare as the
//! values themselves do. The engine only ever compares them here.

use vstd::prelude::*;

verus! {

/// A reading: a key that orders as the value does, or a value that is not a
/// number and compares with nothing.
#[derive(Clone, Copy, Debug, PartialEq, Eq, Structural)]
pub struct Num {
    /// The value is not a number.
    pub nan: bool,
    /// The value is infinite.
    pub infinite: bool,
    /// The place of the value in the order of all numbers; zero stands for zero.
    pub key: i64,
}

impl Num {
    /// `self > other`.
    pub open spec fn above(self, other: Num) -> bool {
        !self.nan && !other.nan && self.key > other.key
    }

    /// `self >= other`.
    pub open spec fn not_below(self, other: Num) -> bool {
        !self.nan && !other.nan && self.key >= other.key
    }

    /// The reading is greater than zero.
    pub open spec fn positive(self) -> bool {
        !self.nan && self.key > 0
    }

    /// The reading is less than zero.
    pub open spec fn negative(self) -> bool {
        !self.nan && self.key < 0
    }

    /// The reading is a finite number.
    pub open spec fn finite(self) -> bool {
        !self.nan && !self.infinite
    }

    /// The finite reading with the key `key`.
    pub fn of(key: i64) -> (r: Num)
        ensures
            r == (Num { nan: false, infinite: false, key }),
    {
        Num { nan: false, infinite: false, key }
    }

    /// Whether the reading is less than zero.
    pub fn is_negative(&self) -> (r: bool)
        ensures
            r == self.negative(),
    {
        !self.nan && self.key < 0
    }

    /// Whether the reading is a finite number.
    pub fn is_finite(&self) -> (r: bool)
        ensures
            r == self.finite(),
    {
        !self.nan && !self.infinite
    }

    /// Whether the reading exceeds `other`.
    pub fn gt(&self, other: &Num) -> (r: bool)
        ensures
            r == self.above(*other),
    {
        !self.nan && !other.nan && self.key > other.key
    }

    /// Whether the reading is under `other`.
    pub fn lt(&self, other: &Num) -> (r: bool)
        ensures
            r == other.above(*self),
    {
        !self.nan && !other.nan && self.key < other.key
    }

    /// Whether the reading is at least `other`.
    pub fn ge(&self, other: &Num) -> (r: bool)
        ensures
            r == self.not_below(*other),
    {
        !self.nan && !other.nan && self.key >= other.key
    }

    /// Whether the reading is at most `other`.
    pub fn le(&self, other: &Num) -> (r: bool)
        ensures
            r == other.not_below(*self),
    {
        !self.nan && !other.nan && self.key <= other.key
    }

    /// Whether the reading is greater than zero.
    pub fn is_positive(&self) -> (r: bool)
        ensures
            r == self.positive(),
    {
        !self.nan && self.key > 0
    }
}

} // verus!
