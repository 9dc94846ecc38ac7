//! Small helpers on scalars.
use crate::scalar::RayTracingFloat;
use rand::Rng;
use vstd::prelude::*;

verus! {

/// `input` held to the interval from `min` to `max`.
pub open spec fn spec_clamp<T: RayTracingFloat>(input: T, min: T, max: T) -> T {
    if input.lt_spec(min) {
        min
    } else if max.lt_spec(input) {
        max
    } else {
        input
    }
}

/// The smaller of two scalars. Where `b` is no number the result is `a`, and
/// where only `a` is no number the result is `b`.
pub open spec fn spec_min<T: RayTracingFloat>(a: T, b: T) -> T {
    if a.lt_spec(b) || !b.le_spec(b) {
        a
    } else {
        b
    }
}

/// The larger of two scalars, with the same rule for values that are no numbers.
pub open spec fn spec_max<T: RayTracingFloat>(a: T, b: T) -> T {
    if b.lt_spec(a) || !b.le_spec(b) {
        a
    } else {
        b
    }
}

/// The scalar `n / d`.
pub open spec fn spec_ratio<T: RayTracingFloat>(n: usize, d: usize) -> T {
    T::from_int_spec(n).div_spec(T::from_int_spec(d))
}

/// A random integer from `min` to `max`, both included.
///
/// This is `Rng::gen_range` of the crate `rand`, on the generator of the
/// current thread and with the inclusive range `min..=max`. It panics on an
/// empty range, which `min <= max` rules out, and returns a value of the
/// range. Nothing else is claimed of the value: two calls may differ. The
/// generator is seeded from the system when a thread first uses it, and
/// that, too, panics where the system has no randomness to give.
#[verifier::external_body]
pub(crate) fn random_int(min: i32, max: i32) -> (r: i32)
    requires
        min <= max,
    ensures
        min <= r <= max,
{
    rand::thread_rng().gen_range(min..=max)
}

pub fn clamp<T: RayTracingFloat>(input: T, min: T, max: T) -> (r: T)
    ensures
        r == spec_clamp(input, min, max),
{
    if input.lt(&min) {
        min
    } else if max.lt(&input) {
        max
    } else {
        input
    }
}

pub fn min<T: RayTracingFloat>(a: T, b: T) -> (r: T)
    ensures
        r == spec_min(a, b),
{
    if a.lt(&b) || !b.le(&b) {
        a
    } else {
        b
    }
}

pub fn max<T: RayTracingFloat>(a: T, b: T) -> (r: T)
    ensures
        r == spec_max(a, b),
{
    if b.lt(&a) || !b.le(&b) {
        a
    } else {
        b
    }
}

/// The scalar `n / d`, for constants that have no integer value.
pub fn ratio<T: RayTracingFloat>(n: usize, d: usize) -> (r: T)
    ensures
        r == spec_ratio::<T>(n, d),
{
    T::from_int(n).div(T::from_int(d))
}

/// The smaller of two numbers is at most both, the larger at least both,
/// and each is one of the two.
pub proof fn lemma_min_max<T: RayTracingFloat>(a: T, b: T)
    requires
        a.is_number(),
        b.is_number(),
    ensures
        spec_min(a, b).le_spec(a),
        spec_min(a, b).le_spec(b),
        a.le_spec(spec_max(a, b)),
        b.le_spec(spec_max(a, b)),
        spec_min(a, b) == a || spec_min(a, b) == b,
        spec_max(a, b) == a || spec_max(a, b) == b,
{
    T::lemma_number(a, a);
    T::lemma_number(b, b);
    T::lemma_le_lt(a, b);
    T::lemma_le_lt(b, a);
    T::lemma_total(a, b);
    T::lemma_total(b, a);
}

/// What is below a number that is at most a third is below the third.
pub proof fn lemma_lt_le_transitive<T: RayTracingFloat>(a: T, b: T, c: T)
    requires
        a.lt_spec(b),
        b.le_spec(c),
    ensures
        a.lt_spec(c),
{
    T::lemma_le_lt(a, b);
    T::lemma_number(a, b);
    T::lemma_number(b, c);
    T::lemma_total(a, c);
    if c.le_spec(a) {
        T::lemma_le_transitive(b, c, a);
        T::lemma_le_lt(b, a);
    }
}

/// What is at most a number that is below a third is below the third.
pub proof fn lemma_le_lt_transitive<T: RayTracingFloat>(a: T, b: T, c: T)
    requires
        a.le_spec(b),
        b.lt_spec(c),
    ensures
        a.lt_spec(c),
{
    T::lemma_le_lt(b, c);
    T::lemma_number(a, b);
    T::lemma_number(b, c);
    T::lemma_total(a, c);
    if c.le_spec(a) {
        T::lemma_le_transitive(c, a, b);
        T::lemma_le_lt(c, b);
    }
}

} // verus!
