//! Double-precision numbers as bit patterns, and the questions about them that are
//! answered outside the library.

use vstd::prelude::*;

verus! {

/// An IEEE 754 double-precision number, held by its 64 bits.
///
/// Two doubles are equal when their bits are. What can be read off the bits (the sign, whether
/// the number is finite, the total order) is computed here; arithmetic, rounding and conversions
/// are [`DoubleOp`] questions.
#[derive(Clone, Copy, Debug, PartialEq, Eq, Hash, Structural)]
pub struct Double {
    /// The bit pattern.
    pub bits: u64,
}

/// The weight of the sign bit.
pub const SIGN_BIT: u64 = 0x8000_0000_0000_0000;

/// The bits of positive infinity: every magnitude below it is finite.
pub const INFINITY_BITS: u64 = 0x7ff0_0000_0000_0000;

impl Double {
    /// Whether the sign bit is set.
    pub open spec fn negative(self) -> bool {
        self.bits >= SIGN_BIT
    }

    /// The bits without the sign.
    pub open spec fn magnitude(self) -> int {
        if self.bits >= SIGN_BIT {
            self.bits - SIGN_BIT
        } else {
            self.bits as int
        }
    }

    /// Whether the number is neither infinite nor a NaN.
    pub open spec fn finite(self) -> bool {
        self.magnitude() < INFINITY_BITS
    }

    /// Whether it is no number.
    pub open spec fn nan(self) -> bool {
        self.magnitude() > INFINITY_BITS
    }

    /// Whether the number is a zero of either sign.
    pub open spec fn zero(self) -> bool {
        self.magnitude() == 0
    }

    /// The place of the number in IEEE 754's total order.
    pub open spec fn rank(self) -> int {
        if self.negative() {
            -1 - self.magnitude()
        } else {
            self.magnitude()
        }
    }

    /// The magnitude with the sign: numbers that are not NaN compare as their keys do.
    pub open spec fn key(self) -> int {
        if self.negative() {
            -self.magnitude()
        } else {
            self.magnitude()
        }
    }

    /// The number with its sign turned.
    pub open spec fn negated(self) -> Double {
        Double {
            bits: if self.bits >= SIGN_BIT {
                (self.bits - SIGN_BIT) as u64
            } else {
                (self.bits + SIGN_BIT) as u64
            },
        }
    }

    /// The number with its sign cleared.
    pub open spec fn absolute(self) -> Double {
        Double { bits: self.magnitude() as u64 }
    }

    /// Positive zero.
    pub fn positive_zero() -> (r: Double)
        ensures
            r.bits == 0,
    {
        Double { bits: 0 }
    }

    /// The number one.
    pub fn one() -> (r: Double)
        ensures
            r.bits == 0x3ff0_0000_0000_0000,
    {
        Double { bits: 0x3ff0_0000_0000_0000 }
    }

    /// Whether the number is neither infinite nor a NaN.
    pub fn is_finite(&self) -> (r: bool)
        ensures
            r == self.finite(),
    {
        if self.bits >= SIGN_BIT {
            self.bits - SIGN_BIT < INFINITY_BITS
        } else {
            self.bits < INFINITY_BITS
        }
    }

    /// Whether the number is a zero of either sign.
    pub fn is_zero(&self) -> (r: bool)
        ensures
            r == self.zero(),
    {
        self.bits == 0 || self.bits == SIGN_BIT
    }

    /// Whether the number is finite and not below zero.
    pub fn is_non_negative(&self) -> (r: bool)
        ensures
            r == (self.finite() && (!self.negative() || self.zero())),
    {
        self.bits < INFINITY_BITS || self.bits == SIGN_BIT
    }

    /// The number with its sign turned.
    pub fn neg(&self) -> (r: Double)
        ensures
            r == self.negated(),
    {
        if self.bits >= SIGN_BIT {
            Double { bits: self.bits - SIGN_BIT }
        } else {
            Double { bits: self.bits + SIGN_BIT }
        }
    }

    /// The number with its sign cleared.
    pub fn abs(&self) -> (r: Double)
        ensures
            r == self.absolute(),
    {
        if self.bits >= SIGN_BIT {
            Double { bits: self.bits - SIGN_BIT }
        } else {
            Double { bits: self.bits }
        }
    }

    /// Whether the number is greater than `other`, neither being a NaN.
    pub fn exceeds(&self, other: &Double) -> (r: bool)
        ensures
            r == (self.key() > other.key()),
    {
        if self.bits >= SIGN_BIT {
            other.bits >= SIGN_BIT && self.bits < other.bits
        } else if other.bits >= SIGN_BIT {
            self.bits > 0 || other.bits > SIGN_BIT
        } else {
            self.bits > other.bits
        }
    }

    /// Whether the number comes before `other` in the total order.
    pub fn ranks_below(&self, other: &Double) -> (r: bool)
        ensures
            r == (self.rank() < other.rank()),
    {
        if self.bits >= SIGN_BIT {
            other.bits < SIGN_BIT || self.bits > other.bits
        } else {
            other.bits < SIGN_BIT && self.bits < other.bits
        }
    }
}

/// A question about double-precision numbers that the library does not compute itself.
#[derive(Clone, Debug, PartialEq, Eq)]
pub enum DoubleOp {
    /// The sum.
    Add(Double, Double),
    /// The difference.
    Sub(Double, Double),
    /// The product.
    Mul(Double, Double),
    /// The quotient.
    Div(Double, Double),
    /// The remainder of the truncated quotient.
    Rem(Double, Double),
    /// The double nearest to an integer.
    FromInteger(i64),
    /// The double of the unscaled value, divided by the double power of ten of the scale.
    FromDecimal(i64, u8),
    /// The double that a numeral denotes, if it is one.
    FromText(String),
    /// The shortest numeral that denotes the double.
    ToText(Double),
    /// The integer nearest to the double, halves away from zero, if `i64` can hold it.
    ToInteger(Double),
    /// The integer nearest to the double times a power of ten, if `i64` can hold it.
    ToScaled(Double, u8),
}

/// The mathematical model of a [`DoubleOp`].
pub enum DoubleOpView {
    /// See [`DoubleOp::Add`].
    Add(Double, Double),
    /// See [`DoubleOp::Sub`].
    Sub(Double, Double),
    /// See [`DoubleOp::Mul`].
    Mul(Double, Double),
    /// See [`DoubleOp::Div`].
    Div(Double, Double),
    /// See [`DoubleOp::Rem`].
    Rem(Double, Double),
    /// See [`DoubleOp::FromInteger`].
    FromInteger(i64),
    /// See [`DoubleOp::FromDecimal`].
    FromDecimal(i64, u8),
    /// See [`DoubleOp::FromText`].
    FromText(Seq<char>),
    /// See [`DoubleOp::ToText`].
    ToText(Double),
    /// See [`DoubleOp::ToInteger`].
    ToInteger(Double),
    /// See [`DoubleOp::ToScaled`].
    ToScaled(Double, u8),
}

impl View for DoubleOp {
    type V = DoubleOpView;

    open spec fn view(&self) -> DoubleOpView {
        match *self {
            DoubleOp::Add(a, b) => DoubleOpView::Add(a, b),
            DoubleOp::Sub(a, b) => DoubleOpView::Sub(a, b),
            DoubleOp::Mul(a, b) => DoubleOpView::Mul(a, b),
            DoubleOp::Div(a, b) => DoubleOpView::Div(a, b),
            DoubleOp::Rem(a, b) => DoubleOpView::Rem(a, b),
            DoubleOp::FromInteger(i) => DoubleOpView::FromInteger(i),
            DoubleOp::FromDecimal(v, s) => DoubleOpView::FromDecimal(v, s),
            DoubleOp::FromText(t) => DoubleOpView::FromText(t@),
            DoubleOp::ToText(a) => DoubleOpView::ToText(a),
            DoubleOp::ToInteger(a) => DoubleOpView::ToInteger(a),
            DoubleOp::ToScaled(a, s) => DoubleOpView::ToScaled(a, s),
        }
    }
}

} // verus!
