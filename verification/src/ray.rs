//! Rays, and the vector operations that need an order on the components.
use crate::scalar::RayTracingFloat;
use crate::utils::min;
use crate::utils::ratio;
use crate::utils::spec_min;
use crate::utils::spec_ratio;
use crate::vec3::dot;
use crate::vec3::spec_dot;
use crate::vec3::Vec3;
use vstd::prelude::*;

verus! {

pub type Point<T> = Vec3<T>;

pub type Vector<T> = Vec3<T>;

/// The vector whose three components stand for the integers `a`, `b`, `c`.
pub open spec fn spec_vec_of_ints<T: RayTracingFloat>(a: usize, b: usize, c: usize) -> Vec3<T> {
    Vec3 { x: T::from_int_spec(a), y: T::from_int_spec(b), z: T::from_int_spec(c) }
}

pub open spec fn spec_zero<T: RayTracingFloat>() -> Vec3<T> {
    spec_vec_of_ints(0, 0, 0)
}

/// `v` mirrored at the plane with normal `n`: `v - (n * 2) * (v.n)`.
pub open spec fn spec_reflect<T: RayTracingFloat>(v: Vec3<T>, n: Vec3<T>) -> Vec3<T> {
    v.minus(n.scaled(T::from_int_spec(2)).scaled(spec_dot(v, n)))
}

/// The part of the refracted direction that lies across the normal.
pub open spec fn spec_refract_perp<T: RayTracingFloat>(
    uv: Vec3<T>,
    n: Vec3<T>,
    etai_over_etat: T,
) -> Vec3<T> {
    let cos_theta = spec_min(spec_dot(uv.negated(), n), T::from_int_spec(1));
    uv.plus(n.scaled(cos_theta)).scaled(etai_over_etat)
}

/// Snell's law for a unit direction `uv` that meets the unit normal `n`:
/// the part across the normal, plus the part along it.
pub open spec fn spec_refract<T: RayTracingFloat>(
    uv: Vec3<T>,
    n: Vec3<T>,
    etai_over_etat: T,
) -> Vec3<T> {
    let perp = spec_refract_perp(uv, n, etai_over_etat);
    let along = n.scaled(
        T::from_int_spec(1).sub_spec(perp.spec_length_squared()).abs_spec().sqrt_spec().neg_spec(),
    );
    perp.plus(along)
}

impl<T: RayTracingFloat> Vec3<T> {
    /// Whether the vector is close to the zero vector: every component is
    /// less than `1 / 100_000_000` away from zero.
    pub open spec fn spec_near_zero(self) -> bool {
        let s = spec_ratio::<T>(1, 100_000_000);
        self.x.abs_spec().lt_spec(s) && self.y.abs_spec().lt_spec(s) && self.z.abs_spec().lt_spec(
            s,
        )
    }

    /// Whether the squared length is below one.
    pub open spec fn inside_unit_sphere(self) -> bool {
        self.spec_length_squared().lt_spec(T::from_int_spec(1))
    }

    /// Whether the vector can be scaled to length one and lies inside the
    /// unit ball: its squared length is above zero and below one.
    pub open spec fn spec_has_direction_in_unit_sphere(self) -> bool {
        T::from_int_spec(0).lt_spec(self.spec_length_squared()) && self.inside_unit_sphere()
    }

    pub fn zero() -> (r: Self)
        ensures
            r == spec_zero::<T>(),
    {
        Vec3::new(T::from_int(0), T::from_int(0), T::from_int(0))
    }

    /// Rejection sampling of the unit disk, one step of it: the point
    /// `(x, y, 0)` is kept if it lies inside the unit circle. The caller
    /// draws the two coordinates from `[-1, 1)` and draws again on `None`.
    pub fn random_in_unit_disk(x: T, y: T) -> (r: Option<Self>)
        ensures
            r == (if (Vec3 { x: x, y: y, z: T::from_int_spec(0) }).inside_unit_sphere() {
                Some(Vec3 { x: x, y: y, z: T::from_int_spec(0) })
            } else {
                None
            }),
    {
        let p = Vec3::new(x, y, T::from_int(0));
        if p.length_squared().lt(&T::from_int(1)) {
            Some(p)
        } else {
            None
        }
    }

    /// Rejection sampling of the unit ball, one step of it: `candidate` is
    /// kept if its squared length is below one. The caller draws the three
    /// coordinates from `[-1, 1)` and draws again on `None`.
    pub fn random_in_unit_sphere(candidate: Self) -> (r: Option<Self>)
        ensures
            r == (if candidate.inside_unit_sphere() {
                Some(candidate)
            } else {
                None
            }),
    {
        if candidate.length_squared().lt(&T::from_int(1)) {
            Some(candidate)
        } else {
            None
        }
    }

    /// Rejection sampling of the unit sphere, one step of it: `candidate`
    /// is kept, divided by its length, if its squared length is above zero
    /// and below one. A candidate without a length has no direction, so it
    /// is refused like one outside the ball. The caller draws the three
    /// coordinates from `[-1, 1)` and draws again on `None`.
    pub fn random_unit_vector(candidate: Self) -> (r: Option<Self>)
        ensures
            r == (if candidate.spec_has_direction_in_unit_sphere() {
                Some(candidate.spec_unit_vector())
            } else {
                None
            }),
    {
        let length_squared = candidate.length_squared();
        if T::from_int(0).lt(&length_squared) && length_squared.lt(&T::from_int(1)) {
            Some(candidate.shrunk(length_squared.square_root()))
        } else {
            None
        }
    }

    /// A point of the unit ball on the side of `normal`, from a candidate
    /// for the unit ball: the candidate where it makes a positive product
    /// with `normal`, else its negation.
    pub fn random_in_hemisphere(candidate: Self, normal: &Self) -> (r: Option<Self>)
        ensures
            r == (if !candidate.inside_unit_sphere() {
                None
            } else if T::from_int_spec(0).lt_spec(spec_dot(candidate, *normal)) {
                Some(candidate)
            } else {
                Some(candidate.negated())
            }),
    {
        match Self::random_in_unit_sphere(candidate) {
            Some(p) => {
                if T::from_int(0).lt(&dot(&p, normal)) {
                    Some(p)
                } else {
                    Some(p.negated())
                }
            },
            None => None,
        }
    }

    pub fn near_zero(&self) -> (b: bool)
        ensures
            b == self.spec_near_zero(),
    {
        let s: T = ratio(1, 100_000_000);
        self.x.abs().lt(&s) && self.y.abs().lt(&s) && self.z.abs().lt(&s)
    }
}

pub fn reflect<T: RayTracingFloat>(v: &Vector<T>, n: &Vector<T>) -> (r: Vector<T>)
    ensures
        r == spec_reflect(*v, *n),
{
    v.minus(n.scaled(T::from_int(2)).scaled(dot(v, n)))
}

pub fn refract<T: RayTracingFloat>(uv: &Vector<T>, n: &Vector<T>, etai_over_etat: &T) -> (r:
    Vector<T>)
    ensures
        r == spec_refract(*uv, *n, *etai_over_etat),
{
    let cos_theta = min(dot(&uv.negated(), n), T::from_int(1));
    let r_out_perp = uv.plus(n.scaled(cos_theta)).scaled(*etai_over_etat);
    let r_out_parallel = n.scaled(
        T::from_int(1).sub(r_out_perp.length_squared()).abs().square_root().neg(),
    );
    r_out_perp.plus(r_out_parallel)
}

/// A half-line: the points `origin + t * direction`, travelled at `time`.
#[derive(Clone, Copy)]
pub struct Ray<T: RayTracingFloat> {
    pub orig: Point<T>,
    pub dir: Vector<T>,
    pub tm: T,
}

impl<T: RayTracingFloat> Ray<T> {
    /// The point at parameter `t`.
    pub open spec fn spec_at(self, t: T) -> Point<T> {
        self.orig.plus(self.dir.scaled(t))
    }

    /// The ray from the origin with no direction, at time zero.
    pub fn zero() -> (r: Self)
        ensures
            r == (Ray { orig: spec_zero::<T>(), dir: spec_zero::<T>(), tm: T::from_int_spec(0) }),
    {
        Ray::new(Vec3::zero(), Vec3::zero(), T::from_int(0))
    }

    pub fn new(origin: Point<T>, direction: Vector<T>, time: T) -> (r: Self)
        ensures
            r == (Ray { orig: origin, dir: direction, tm: time }),
    {
        Ray { orig: origin, dir: direction, tm: time }
    }

    pub fn origin(&self) -> (r: &Point<T>)
        ensures
            *r == self.orig,
    {
        &self.orig
    }

    pub fn direction(&self) -> (r: &Vector<T>)
        ensures
            *r == self.dir,
    {
        &self.dir
    }

    pub fn time(&self) -> (r: &T)
        ensures
            *r == self.tm,
    {
        &self.tm
    }

    pub fn at(&self, t: &T) -> (r: Point<T>)
        ensures
            r == self.spec_at(*t),
    {
        self.orig.plus(self.dir.scaled(*t))
    }
}

} // verus!
