//! The 64-bit numeric cell and the two ways of reading it.
use crate::ieee;
use std::cmp::Ordering;
use vstd::prelude::*;

verus! {

/// How the 64 bits of a `Number` are read.
#[derive(Clone, Copy, Debug, PartialEq, Eq, Structural, Hash)]
pub enum NumberKind {
    /// As an IEEE 754 binary64 value.
    F64,
    /// As an unsigned integer.
    U64,
}

/// A 64-bit cell. It carries no tag: every operation is told the kind.
#[derive(Clone, Copy, Debug, PartialEq, Eq, Structural)]
pub struct Number {
    /// The stored pattern.
    pub bits: u64,
}

impl View for Number {
    type V = u64;

    open spec fn view(&self) -> u64 {
        self.bits
    }
}

/// A number as an exporter shows it: the pattern together with its reading.
#[derive(Clone, Copy, Debug, PartialEq, Eq, Structural)]
pub struct ExportNumeric {
    /// How the pattern is read.
    pub kind: NumberKind,
    /// The pattern.
    pub bits: u64,
}

/// The sum of two cells under a kind: modulo 2^64 for integers, rounded to
/// nearest for binary64.
pub open spec fn number_sum(kind: NumberKind, a: u64, b: u64) -> u64 {
    match kind {
        NumberKind::U64 => ((a + b) % 0x1_0000_0000_0000_0000) as u64,
        NumberKind::F64 => ieee::sum(a, b),
    }
}

/// Whether `a` is below `b` under a kind. For binary64 this is the IEEE 754
/// `<`, which no NaN satisfies.
pub open spec fn number_lt(kind: NumberKind, a: u64, b: u64) -> bool {
    match kind {
        NumberKind::U64 => a < b,
        NumberKind::F64 => ieee::less(a, b),
    }
}

/// Whether two cells can be compared under a kind: always for integers, and
/// for binary64 unless one of them is a NaN.
pub open spec fn number_comparable(kind: NumberKind, a: u64, b: u64) -> bool {
    match kind {
        NumberKind::U64 => true,
        NumberKind::F64 => !ieee::is_nan(a) && !ieee::is_nan(b),
    }
}

/// The outcome of comparing `a` with `b` under a kind.
pub open spec fn number_ordering(kind: NumberKind, a: u64, b: u64) -> Option<Ordering> {
    if !number_comparable(kind, a, b) {
        None
    } else if number_lt(kind, a, b) {
        Some(Ordering::Less)
    } else if number_lt(kind, b, a) {
        Some(Ordering::Greater)
    } else {
        Some(Ordering::Equal)
    }
}

/// What the range check of a monotonic instrument takes for negative: every
/// integer cell, by convention, and a binary64 cell whose sign bit is set.
pub open spec fn number_is_negative(kind: NumberKind, a: u64) -> bool {
    match kind {
        NumberKind::U64 => true,
        NumberKind::F64 => ieee::sign_set(a),
    }
}

/// The binary64 reading of a cell: the value nearest to an integer cell, the
/// pattern itself otherwise.
pub open spec fn number_as_float(kind: NumberKind, a: u64) -> u64 {
    match kind {
        NumberKind::U64 => ieee::of_uint(a),
        NumberKind::F64 => a,
    }
}

/// A key under which the cells of one kind are totally ordered and no two
/// different cells are equal. It agrees with `number_lt` wherever that holds.
pub open spec fn number_key(kind: NumberKind, a: u64) -> int {
    match kind {
        NumberKind::U64 => a as int,
        NumberKind::F64 => ieee::total_key(a),
    }
}

impl Number {
    /// Overwrites this cell with the pattern of `other`.
    pub fn assign(&mut self, number_kind: &NumberKind, other: &Number)
        ensures
            final(self)@ == other@,
    {
        self.bits = other.bits;
    }

    /// Adds `other` to this cell under `number_kind`.
    pub fn add(&mut self, number_kind: &NumberKind, other: &Number)
        ensures
            final(self)@ == number_sum(*number_kind, old(self)@, other@),
    {
        match number_kind {
            NumberKind::F64 => {
                self.bits = ieee::rounded_sum(self.bits, other.bits);
            },
            NumberKind::U64 => {
                self.bits = self.bits.wrapping_add(other.bits);
            },
        }
    }

    /// The stored pattern.
    pub fn to_u64(&self) -> (r: u64)
        ensures
            r == self@,
    {
        self.bits
    }

    /// The pattern of the binary64 reading of this cell.
    pub fn to_f64(&self, number_kind: &NumberKind) -> (r: u64)
        ensures
            r == number_as_float(*number_kind, self@),
    {
        match number_kind {
            NumberKind::U64 => ieee::nearest(self.bits),
            NumberKind::F64 => self.bits,
        }
    }

    /// Whether this cell is below `other` under `number_kind`.
    pub fn is_below(&self, number_kind: &NumberKind, other: &Number) -> (r: bool)
        ensures
            r == number_lt(*number_kind, self@, other@),
    {
        match number_kind {
            NumberKind::F64 => ieee::lt(self.bits, other.bits),
            NumberKind::U64 => self.bits < other.bits,
        }
    }

    /// Whether this cell comes before `other` under `number_key`.
    pub fn sorts_before(&self, number_kind: &NumberKind, other: &Number) -> (r: bool)
        ensures
            r == (number_key(*number_kind, self@) < number_key(*number_kind, other@)),
    {
        match number_kind {
            NumberKind::F64 => ieee::key_lt(self.bits, other.bits),
            NumberKind::U64 => self.bits < other.bits,
        }
    }

    /// Compares this cell with `other` under `number_kind`. Two binary64
    /// cells of which one is a NaN have no order.
    pub fn partial_cmp(&self, number_kind: &NumberKind, other: &Number) -> (r: Option<Ordering>)
        ensures
            r == number_ordering(*number_kind, self@, other@),
    {
        let comparable = match number_kind {
            NumberKind::F64 => !ieee::nan(self.bits) && !ieee::nan(other.bits),
            NumberKind::U64 => true,
        };
        if !comparable {
            None
        } else if self.is_below(number_kind, other) {
            Some(Ordering::Less)
        } else if other.is_below(number_kind, self) {
            Some(Ordering::Greater)
        } else {
            Some(Ordering::Equal)
        }
    }

    /// Whether the pattern, read as binary64, is a NaN.
    pub fn is_nan(&self) -> (r: bool)
        ensures
            r == ieee::is_nan(self@),
    {
        ieee::nan(self.bits)
    }

    /// Whether the range check of a monotonic instrument takes this cell for
    /// negative.
    pub fn is_negative(&self, number_kind: &NumberKind) -> (r: bool)
        ensures
            r == number_is_negative(*number_kind, self@),
    {
        match number_kind {
            NumberKind::U64 => true,
            NumberKind::F64 => self.bits >= ieee::SIGN_BIT,
        }
    }

    /// The cell as an exporter shows it.
    pub fn to_debug(&self, kind: &NumberKind) -> (r: ExportNumeric)
        ensures
            r == (ExportNumeric { kind: *kind, bits: self@ }),
    {
        ExportNumeric { kind: *kind, bits: self.bits }
    }
}

impl Default for Number {
    fn default() -> (r: Number)
        ensures
            r@ == 0,
    {
        Number { bits: 0 }
    }
}

impl From<u64> for Number {
    fn from(u: u64) -> (r: Number) {
        Number { bits: u }
    }
}

impl vstd::std_specs::convert::FromSpecImpl<u64> for Number {
    open spec fn obeys_from_spec() -> bool {
        true
    }

    open spec fn from_spec(u: u64) -> Number {
        Number { bits: u }
    }
}

/// The pattern of a signed integer in two's complement.
pub open spec fn twos_complement(i: i64) -> u64 {
    if i >= 0 {
        i as u64
    } else {
        (i + 0x1_0000_0000_0000_0000) as u64
    }
}

/// The pattern of a signed integer in two's complement.
pub fn pattern_of(i: i64) -> (r: u64)
    ensures
        r == twos_complement(i),
{
    if i >= 0 {
        i as u64
    } else {
        u64::MAX - ((-(i + 1)) as u64)
    }
}

impl From<i64> for Number {
    fn from(i: i64) -> (r: Number) {
        Number { bits: pattern_of(i) }
    }
}

impl vstd::std_specs::convert::FromSpecImpl<i64> for Number {
    open spec fn obeys_from_spec() -> bool {
        true
    }

    open spec fn from_spec(i: i64) -> Number {
        Number { bits: twos_complement(i) }
    }
}

impl NumberKind {
    /// The zero of this kind: the all-zero pattern for both.
    pub fn zero(&self) -> (r: Number)
        ensures
            r@ == 0,
    {
        Number { bits: 0 }
    }

    /// The largest value of this kind that an aggregate starts its minimum from.
    pub fn max(&self) -> (r: Number)
        ensures
            r@ == (match *self {
                NumberKind::U64 => u64::MAX,
                NumberKind::F64 => ieee::LARGEST_BITS,
            }),
    {
        match self {
            NumberKind::U64 => Number { bits: u64::MAX },
            NumberKind::F64 => Number { bits: ieee::LARGEST_BITS },
        }
    }

    /// The smallest value of this kind that an aggregate starts its maximum from.
    pub fn min(&self) -> (r: Number)
        ensures
            r@ == (match *self {
                NumberKind::U64 => u64::MIN,
                NumberKind::F64 => ieee::SMALLEST_BITS,
            }),
    {
        match self {
            NumberKind::U64 => Number { bits: 0 },
            NumberKind::F64 => Number { bits: ieee::SMALLEST_BITS },
        }
    }
}

} // verus!
