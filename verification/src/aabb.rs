//! Axis-aligned bounding boxes and the slab test.
use crate::hittable::Hittable;
use crate::hittable::Primitive;
use crate::ray::Point;
use crate::ray::Ray;
use crate::scalar::RayTracingFloat;
use crate::utils::lemma_min_max;
use crate::utils::max;
use crate::utils::min;
use crate::utils::spec_max;
use crate::utils::spec_min;
use crate::vec3::Vec3;
use std::cmp::Ordering;
use vstd::prelude::*;

verus! {

/// The box between the corners `minimum` and `maximum`.
#[derive(Clone, Copy)]
pub struct AxisAlignedBoundingBoxes<T: RayTracingFloat> {
    pub minimum: Point<T>,
    pub maximum: Point<T>,
}

/// The interval of ray parameters that is left of `(lo, hi)` once the ray is
/// cut to the slab between `box_min` and `box_max` on one axis. With
/// `inv = 1 / direction`, the ray enters the slab at `(box_min - origin) * inv`
/// and leaves it at `(box_max - origin) * inv`, or the other way round where
/// `inv` is negative.
pub open spec fn spec_slab<T: RayTracingFloat>(
    box_min: T,
    box_max: T,
    origin: T,
    direction: T,
    lo: T,
    hi: T,
) -> (T, T) {
    let inv = T::from_int_spec(1).div_spec(direction);
    let a = box_min.sub_spec(origin).mul_spec(inv);
    let b = box_max.sub_spec(origin).mul_spec(inv);
    let t0 = if inv.lt_spec(T::from_int_spec(0)) {
        b
    } else {
        a
    };
    let t1 = if inv.lt_spec(T::from_int_spec(0)) {
        a
    } else {
        b
    };
    (
        if lo.lt_spec(t0) {
            t0
        } else {
            lo
        },
        if t1.lt_spec(hi) {
            t1
        } else {
            hi
        },
    )
}

/// The smallest box around `box0` and `box1`: the smaller of the two minima
/// and the larger of the two maxima, axis by axis.
pub open spec fn spec_surrounding_box<T: RayTracingFloat>(
    box0: AxisAlignedBoundingBoxes<T>,
    box1: AxisAlignedBoundingBoxes<T>,
) -> AxisAlignedBoundingBoxes<T> {
    AxisAlignedBoundingBoxes {
        minimum: Vec3 {
            x: spec_min(box0.minimum.x, box1.minimum.x),
            y: spec_min(box0.minimum.y, box1.minimum.y),
            z: spec_min(box0.minimum.z, box1.minimum.z),
        },
        maximum: Vec3 {
            x: spec_max(box0.maximum.x, box1.maximum.x),
            y: spec_max(box0.maximum.y, box1.maximum.y),
            z: spec_max(box0.maximum.z, box1.maximum.z),
        },
    }
}

impl<T: RayTracingFloat> AxisAlignedBoundingBoxes<T> {
    /// Whether all six coordinates are numbers.
    pub open spec fn is_numeric(self) -> bool {
        &&& self.minimum.x.is_number()
        &&& self.minimum.y.is_number()
        &&& self.minimum.z.is_number()
        &&& self.maximum.x.is_number()
        &&& self.maximum.y.is_number()
        &&& self.maximum.z.is_number()
    }

    /// Whether the minimum is at most the maximum on every axis.
    pub open spec fn spec_corners_in_order(self) -> bool {
        &&& self.minimum.x.le_spec(self.maximum.x)
        &&& self.minimum.y.le_spec(self.maximum.y)
        &&& self.minimum.z.le_spec(self.maximum.z)
    }

    /// Whether `inner` lies in `self`: on every axis the minimum of `self`
    /// is at most that of `inner`, and the maximum at least that of `inner`.
    pub open spec fn contains(self, inner: Self) -> bool {
        &&& self.minimum.x.le_spec(inner.minimum.x)
        &&& self.minimum.y.le_spec(inner.minimum.y)
        &&& self.minimum.z.le_spec(inner.minimum.z)
        &&& inner.maximum.x.le_spec(self.maximum.x)
        &&& inner.maximum.y.le_spec(self.maximum.y)
        &&& inner.maximum.z.le_spec(self.maximum.z)
    }

    /// The slab test from axis `axis` on, with `(lo, hi)` the interval that
    /// the axes before it have left: the interval is cut to each slab in
    /// turn, and the ray misses as soon as it is empty.
    pub open spec fn spec_hit_from(self, r: Ray<T>, axis: int, lo: T, hi: T) -> bool
        decreases 3 - axis,
    {
        if axis >= 3 {
            true
        } else {
            let cut = spec_slab(
                self.minimum.axis(axis),
                self.maximum.axis(axis),
                r.orig.axis(axis),
                r.dir.axis(axis),
                lo,
                hi,
            );
            if cut.1.le_spec(cut.0) {
                false
            } else {
                self.spec_hit_from(r, axis + 1, cut.0, cut.1)
            }
        }
    }

    /// Whether the ray passes through the box at a parameter between
    /// `t_min` and `t_max`.
    pub open spec fn spec_hit(self, r: Ray<T>, t_min: T, t_max: T) -> bool {
        self.spec_hit_from(r, 0, t_min, t_max)
    }

    pub fn new(a: Point<T>, b: Point<T>) -> (r: Self)
        ensures
            r == (AxisAlignedBoundingBoxes { minimum: a, maximum: b }),
    {
        AxisAlignedBoundingBoxes { minimum: a, maximum: b }
    }

    pub fn min(&self) -> (r: &Point<T>)
        ensures
            *r == self.minimum,
    {
        &self.minimum
    }

    pub fn max(&self) -> (r: &Point<T>)
        ensures
            *r == self.maximum,
    {
        &self.maximum
    }

    /// The slab test. A direction component of zero is no error: its
    /// reciprocal is whatever the scalar type divides to, and only
    /// comparisons follow.
    pub fn hit(&self, r: &Ray<T>, t_min: &T, t_max: &T) -> (b: bool)
        ensures
            b == self.spec_hit(*r, *t_min, *t_max),
    {
        let mut lo = *t_min;
        let mut hi = *t_max;
        let mut a: usize = 0;
        while a < 3
            invariant
                a <= 3,
                self.spec_hit(*r, *t_min, *t_max) == self.spec_hit_from(*r, a as int, lo, hi),
            decreases 3 - a,
        {
            let inv_d = T::from_int(1).div(r.dir.get(a));
            let mut t0 = self.minimum.get(a).sub(r.orig.get(a)).mul(inv_d);
            let mut t1 = self.maximum.get(a).sub(r.orig.get(a)).mul(inv_d);
            if inv_d.lt(&T::from_int(0)) {
                let t = t0;
                t0 = t1;
                t1 = t;
            }
            if lo.lt(&t0) {
                lo = t0;
            }
            if t1.lt(&hi) {
                hi = t1;
            }
            if hi.le(&lo) {
                return false;
            }
            a += 1;
        }
        true
    }
}

pub fn surrounding_box<T: RayTracingFloat>(
    box0: &AxisAlignedBoundingBoxes<T>,
    box1: &AxisAlignedBoundingBoxes<T>,
) -> (r: AxisAlignedBoundingBoxes<T>)
    ensures
        r == spec_surrounding_box(*box0, *box1),
{
    let small = Vec3::new(
        min(box0.minimum.x, box1.minimum.x),
        min(box0.minimum.y, box1.minimum.y),
        min(box0.minimum.z, box1.minimum.z),
    );
    let big = Vec3::new(
        max(box0.maximum.x, box1.maximum.x),
        max(box0.maximum.y, box1.maximum.y),
        max(box0.maximum.z, box1.maximum.z),
    );
    AxisAlignedBoundingBoxes::new(small, big)
}

/// The box around two boxes contains both of them, whenever their
/// coordinates are numbers; and its own coordinates are numbers again.
pub proof fn lemma_surrounding_box_contains<T: RayTracingFloat>(
    a: AxisAlignedBoundingBoxes<T>,
    b: AxisAlignedBoundingBoxes<T>,
)
    requires
        a.is_numeric(),
        b.is_numeric(),
    ensures
        spec_surrounding_box(a, b).contains(a),
        spec_surrounding_box(a, b).contains(b),
        spec_surrounding_box(a, b).is_numeric(),
{
    lemma_min_max(a.minimum.x, b.minimum.x);
    lemma_min_max(a.minimum.y, b.minimum.y);
    lemma_min_max(a.minimum.z, b.minimum.z);
    lemma_min_max(a.maximum.x, b.maximum.x);
    lemma_min_max(a.maximum.y, b.maximum.y);
    lemma_min_max(a.maximum.z, b.maximum.z);
}

/// The box around two boxes has its corners in order where one of the two
/// has, whenever the coordinates of both are numbers.
pub proof fn lemma_surrounding_box_in_order<T: RayTracingFloat>(
    a: AxisAlignedBoundingBoxes<T>,
    b: AxisAlignedBoundingBoxes<T>,
)
    requires
        a.is_numeric(),
        b.is_numeric(),
        a.spec_corners_in_order() || b.spec_corners_in_order(),
    ensures
        spec_surrounding_box(a, b).spec_corners_in_order(),
{
    let s = spec_surrounding_box(a, b);
    lemma_surrounding_box_contains(a, b);
    let inner = if a.spec_corners_in_order() {
        a
    } else {
        b
    };
    T::lemma_le_transitive(s.minimum.x, inner.minimum.x, inner.maximum.x);
    T::lemma_le_transitive(s.minimum.x, inner.maximum.x, s.maximum.x);
    T::lemma_le_transitive(s.minimum.y, inner.minimum.y, inner.maximum.y);
    T::lemma_le_transitive(s.minimum.y, inner.maximum.y, s.maximum.y);
    T::lemma_le_transitive(s.minimum.z, inner.minimum.z, inner.maximum.z);
    T::lemma_le_transitive(s.minimum.z, inner.maximum.z, s.maximum.z);
}

/// A box that lies in a box that lies in a third lies in the third.
pub proof fn lemma_contains_transitive<T: RayTracingFloat>(
    a: AxisAlignedBoundingBoxes<T>,
    b: AxisAlignedBoundingBoxes<T>,
    c: AxisAlignedBoundingBoxes<T>,
)
    requires
        a.contains(b),
        b.contains(c),
    ensures
        a.contains(c),
{
    T::lemma_le_transitive(a.minimum.x, b.minimum.x, c.minimum.x);
    T::lemma_le_transitive(a.minimum.y, b.minimum.y, c.minimum.y);
    T::lemma_le_transitive(a.minimum.z, b.minimum.z, c.minimum.z);
    T::lemma_le_transitive(c.maximum.x, b.maximum.x, a.maximum.x);
    T::lemma_le_transitive(c.maximum.y, b.maximum.y, a.maximum.y);
    T::lemma_le_transitive(c.maximum.z, b.maximum.z, a.maximum.z);
}

/// How two primitives stand to each other along `axis` (0, 1 or 2 for `x`,
/// `y`, `z`) by the minimum of their boxes between `time0` and `time1`:
/// nothing where one of them has no box; else `Less` where the minimum of
/// `a` is below that of `b`, `Greater` where it is above, `Equal` where it
/// is neither.
pub open spec fn box_order<T: RayTracingFloat>(
    a: Primitive<T>,
    b: Primitive<T>,
    axis: usize,
    time0: T,
    time1: T,
) -> Option<Ordering> {
    match (a.bounding_box_spec(time0, time1), b.bounding_box_spec(time0, time1)) {
        (Some(box_a), Some(box_b)) => {
            let ka = if axis == 0 {
                box_a.minimum.x
            } else if axis == 1 {
                box_a.minimum.y
            } else {
                box_a.minimum.z
            };
            let kb = if axis == 0 {
                box_b.minimum.x
            } else if axis == 1 {
                box_b.minimum.y
            } else {
                box_b.minimum.z
            };
            if ka.lt_spec(kb) {
                Some(Ordering::Less)
            } else if kb.lt_spec(ka) {
                Some(Ordering::Greater)
            } else {
                Some(Ordering::Equal)
            }
        },
        _ => None,
    }
}

fn box_compare<T: RayTracingFloat>(
    a: &Primitive<T>,
    b: &Primitive<T>,
    axis: usize,
    time0: &T,
    time1: &T,
) -> (r: Option<Ordering>)
    requires
        axis < 3,
    ensures
        r == box_order(*a, *b, axis, *time0, *time1),
{
    match (a.bounding_box(time0, time1), b.bounding_box(time0, time1)) {
        (Some(box_a), Some(box_b)) => {
            let ka = box_a.minimum.get(axis);
            let kb = box_b.minimum.get(axis);
            if ka.lt(&kb) {
                Some(Ordering::Less)
            } else if kb.lt(&ka) {
                Some(Ordering::Greater)
            } else {
                Some(Ordering::Equal)
            }
        },
        _ => None,
    }
}

/// The order of two primitives along `x`; `None` reports a missing box.
pub fn box_x_compare<T: RayTracingFloat>(a: &Primitive<T>, b: &Primitive<T>, time0: &T, time1: &T) -> (r:
    Option<Ordering>)
    ensures
        r == box_order(*a, *b, 0, *time0, *time1),
{
    box_compare(a, b, 0, time0, time1)
}

/// The order of two primitives along `y`; `None` reports a missing box.
pub fn box_y_compare<T: RayTracingFloat>(a: &Primitive<T>, b: &Primitive<T>, time0: &T, time1: &T) -> (r:
    Option<Ordering>)
    ensures
        r == box_order(*a, *b, 1, *time0, *time1),
{
    box_compare(a, b, 1, time0, time1)
}

/// The order of two primitives along `z`; `None` reports a missing box.
pub fn box_z_compare<T: RayTracingFloat>(a: &Primitive<T>, b: &Primitive<T>, time0: &T, time1: &T) -> (r:
    Option<Ordering>)
    ensures
        r == box_order(*a, *b, 2, *time0, *time1),
{
    box_compare(a, b, 2, time0, time1)
}

} // verus!
