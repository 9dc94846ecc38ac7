//! The number types that the renderer computes with.
//!
//! The geometry in this crate is written once, over any type that offers the
//! arithmetic below. Every operation is a function of its arguments: a
//! specification function names its result, and the executable method returns
//! exactly that value. Nothing is assumed of the arithmetic beyond this and the
//! few laws stated at the end of [`RayTracingFloat`]. Those laws hold of
//! binary floating point, rounding and NaN included, as they do of exact
//! numbers, and so do the contracts of the crate.
//!
//! Whoever implements the traits answers for two things that the proofs of
//! this crate take for granted. The methods return what the specification
//! functions say, which for floating point means that all NaNs count as one
//! value: the crate never looks into one. And the laws are true of the type.
use vstd::prelude::*;

verus! {

/// Square roots.
pub trait Sqrt: Sized {
    /// The value that [`Sqrt::square_root`] returns for `self`.
    spec fn sqrt_spec(self) -> Self;

    fn square_root(&self) -> (r: Self)
        ensures
            r == self.sqrt_spec(),
    ;
}

/// What a component of a [`crate::vec3::Vec3`] has to offer: copying, the four
/// arithmetic operations, negation and a square root.
pub trait Vec3Elem: Sqrt + Copy {
    spec fn neg_spec(self) -> Self;

    spec fn add_spec(self, rhs: Self) -> Self;

    spec fn sub_spec(self, rhs: Self) -> Self;

    spec fn mul_spec(self, rhs: Self) -> Self;

    spec fn div_spec(self, rhs: Self) -> Self;

    fn neg(self) -> (r: Self)
        ensures
            r == self.neg_spec(),
    ;

    fn add(self, rhs: Self) -> (r: Self)
        ensures
            r == self.add_spec(rhs),
    ;

    fn sub(self, rhs: Self) -> (r: Self)
        ensures
            r == self.sub_spec(rhs),
    ;

    fn mul(self, rhs: Self) -> (r: Self)
        ensures
            r == self.mul_spec(rhs),
    ;

    /// Division never fails: a type without infinities has to pick a value
    /// for a zero divisor.
    fn div(self, rhs: Self) -> (r: Self)
        ensures
            r == self.div_spec(rhs),
    ;
}

/// A scalar of the renderer: a [`Vec3Elem`] with an order, the constants and
/// the angle functions that the geometry needs.
///
/// An implementation for IEEE 754 doubles forwards each method to the
/// operation of the same name; `is_number` is then "not a NaN".
pub trait RayTracingFloat: Vec3Elem {
    /// `self < rhs`.
    spec fn lt_spec(self, rhs: Self) -> bool;

    /// `self <= rhs`.
    spec fn le_spec(self, rhs: Self) -> bool;

    /// Whether the value takes part in the order at all.
    spec fn is_number(self) -> bool;

    /// The scalar that stands for the integer `n`.
    spec fn from_int_spec(n: usize) -> Self;

    /// The integer part of `self`, held to the range of a byte.
    spec fn to_u8_spec(self) -> u8;

    /// The distance of `self` from zero.
    spec fn abs_spec(self) -> Self;

    spec fn infinity_spec() -> Self;

    spec fn pi_spec() -> Self;

    spec fn sin_spec(self) -> Self;

    spec fn cos_spec(self) -> Self;

    spec fn tan_spec(self) -> Self;

    spec fn acos_spec(self) -> Self;

    /// The angle of the point with ordinate `self` and abscissa `x`.
    spec fn atan2_spec(self, x: Self) -> Self;

    fn lt(&self, rhs: &Self) -> (b: bool)
        ensures
            b == self.lt_spec(*rhs),
    ;

    fn le(&self, rhs: &Self) -> (b: bool)
        ensures
            b == self.le_spec(*rhs),
    ;

    fn from_int(n: usize) -> (r: Self)
        ensures
            r == Self::from_int_spec(n),
    ;

    fn to_u8(self) -> (r: u8)
        ensures
            r == self.to_u8_spec(),
    ;

    fn abs(self) -> (r: Self)
        ensures
            r == self.abs_spec(),
    ;

    /// The bound of a search without an upper bound: a value that no
    /// parameter of a hit reaches.
    fn infinity() -> (r: Self)
        ensures
            r == Self::infinity_spec(),
    ;

    fn pi() -> (r: Self)
        ensures
            r == Self::pi_spec(),
    ;

    fn sin(self) -> (r: Self)
        ensures
            r == self.sin_spec(),
    ;

    fn cos(self) -> (r: Self)
        ensures
            r == self.cos_spec(),
    ;

    fn tan(self) -> (r: Self)
        ensures
            r == self.tan_spec(),
    ;

    fn acos(self) -> (r: Self)
        ensures
            r == self.acos_spec(),
    ;

    fn atan2(self, x: Self) -> (r: Self)
        ensures
            r == self.atan2_spec(x),
    ;

    /// Nothing is below itself.
    proof fn lemma_lt_irreflexive(a: Self)
        ensures
            !a.lt_spec(a),
    ;

    /// `<` is transitive.
    proof fn lemma_lt_transitive(a: Self, b: Self, c: Self)
        requires
            a.lt_spec(b),
            b.lt_spec(c),
        ensures
            a.lt_spec(c),
    ;

    /// `<=` holds where `<` does, and never together with the opposite `<`.
    proof fn lemma_le_lt(a: Self, b: Self)
        ensures
            a.lt_spec(b) ==> a.le_spec(b),
            a.le_spec(b) ==> !b.lt_spec(a),
    ;

    /// `<=` is transitive.
    proof fn lemma_le_transitive(a: Self, b: Self, c: Self)
        requires
            a.le_spec(b),
            b.le_spec(c),
        ensures
            a.le_spec(c),
    ;

    /// Only numbers are compared, and every number is `<=` itself.
    proof fn lemma_number(a: Self, b: Self)
        ensures
            a.le_spec(b) ==> a.is_number() && b.is_number(),
            a.is_number() ==> a.le_spec(a),
    ;

    /// Two numbers are always comparable.
    proof fn lemma_total(a: Self, b: Self)
        requires
            a.is_number(),
            b.is_number(),
        ensures
            a.lt_spec(b) || b.le_spec(a),
    ;

    /// Zero is its own distance from zero.
    proof fn lemma_abs_zero()
        ensures
            Self::from_int_spec(0).abs_spec() == Self::from_int_spec(0),
    ;

    /// A square root is never below zero.
    proof fn lemma_sqrt_not_negative(a: Self)
        ensures
            !a.sqrt_spec().lt_spec(Self::from_int_spec(0)),
    ;

    /// Adding what is not below zero gives no less than subtracting it.
    proof fn lemma_add_sub_order(a: Self, s: Self)
        requires
            !s.lt_spec(Self::from_int_spec(0)),
        ensures
            !a.add_spec(s).lt_spec(a.sub_spec(s)),
    ;

    /// Division by what is above zero keeps the order.
    proof fn lemma_div_monotone(a: Self, b: Self, d: Self)
        requires
            !b.lt_spec(a),
            Self::from_int_spec(0).lt_spec(d),
        ensures
            !b.div_spec(d).lt_spec(a.div_spec(d)),
    ;

    /// A quotient of two positive integers is above zero.
    proof fn lemma_positive_ratio(n: usize, d: usize)
        requires
            0 < n,
            0 < d,
        ensures
            Self::from_int_spec(0).lt_spec(Self::from_int_spec(n).div_spec(Self::from_int_spec(d))),
    ;
}

} // verus!
