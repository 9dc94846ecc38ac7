//! Spheres, at rest and in motion.
use crate::aabb::spec_surrounding_box;
use crate::aabb::surrounding_box;
use crate::aabb::AxisAlignedBoundingBoxes;
use crate::hittable::in_range;
use crate::hittable::spec_in_range;
use crate::hittable::spec_record;
use crate::hittable::HitRecord;
use crate::hittable::spec_consistent;
use crate::hittable::spec_cut_off;
use crate::hittable::Hittable;
use crate::hittable::Primitive;
use crate::material::MaterialKind;
use crate::ray::Point;
use crate::ray::Ray;
use crate::scalar::RayTracingFloat;
use crate::utils::lemma_lt_le_transitive;
use crate::vec3::dot;
use crate::vec3::spec_dot;
use crate::vec3::Vec3;
use std::rc::Rc;
use vstd::prelude::*;

verus! {

/// The sphere around `center`.
pub struct Sphere<T: RayTracingFloat> {
    pub center: Point<T>,
    pub radius: T,
    pub mat: Rc<MaterialKind<T>>,
}

/// A sphere whose centre moves in a straight line, from `center0` at
/// `time0` to `center1` at `time1`.
pub struct MovingSphere<T: RayTracingFloat> {
    pub center0: Point<T>,
    pub center1: Point<T>,
    pub time0: T,
    pub time1: T,
    pub radius: T,
    pub mat: Rc<MaterialKind<T>>,
}

/// The discriminant of `|O + tD - C|^2 = r^2`, a quadratic in `t`, divided
/// by four: `h*h - a*c` with `a = D.D`, `h = (O - C).D` and
/// `c = |O - C|^2 - r*r`.
pub open spec fn spec_discriminant<T: RayTracingFloat>(center: Point<T>, radius: T, r: Ray<T>) -> T {
    let oc = r.orig.minus(center);
    let a = r.dir.spec_length_squared();
    let half_b = spec_dot(oc, r.dir);
    let c = oc.spec_length_squared().sub_spec(radius.mul_spec(radius));
    half_b.mul_spec(half_b).sub_spec(a.mul_spec(c))
}

/// The smaller root of the quadratic, `(-h - sqrt(d)) / a`.
pub open spec fn spec_near_root<T: RayTracingFloat>(center: Point<T>, radius: T, r: Ray<T>) -> T {
    let half_b = spec_dot(r.orig.minus(center), r.dir);
    half_b.neg_spec().sub_spec(spec_discriminant(center, radius, r).sqrt_spec()).div_spec(
        r.dir.spec_length_squared(),
    )
}

/// The larger root of the quadratic, `(-h + sqrt(d)) / a`.
pub open spec fn spec_far_root<T: RayTracingFloat>(center: Point<T>, radius: T, r: Ray<T>) -> T {
    let half_b = spec_dot(r.orig.minus(center), r.dir);
    half_b.neg_spec().add_spec(spec_discriminant(center, radius, r).sqrt_spec()).div_spec(
        r.dir.spec_length_squared(),
    )
}

/// The parameter at which the ray meets the sphere: none where the
/// discriminant is negative; else the smaller root where it lies strictly
/// between `t_min` and `t_max`, else the larger root where that does.
pub open spec fn spec_sphere_root<T: RayTracingFloat>(
    center: Point<T>,
    radius: T,
    r: Ray<T>,
    t_min: T,
    t_max: T,
) -> Option<T> {
    if spec_discriminant(center, radius, r).lt_spec(T::from_int_spec(0)) {
        None
    } else if spec_in_range(spec_near_root(center, radius, r), t_min, t_max) {
        Some(spec_near_root(center, radius, r))
    } else if spec_in_range(spec_far_root(center, radius, r), t_min, t_max) {
        Some(spec_far_root(center, radius, r))
    } else {
        None
    }
}

/// The surface coordinates of the point `p` of the unit sphere:
/// `u = (atan2(-z, x) + pi) / (2 pi)` and `v = acos(-y) / pi`.
pub open spec fn spec_sphere_uv<T: RayTracingFloat>(p: Point<T>) -> (T, T) {
    let theta = p.y.neg_spec().acos_spec();
    let phi = p.z.neg_spec().atan2_spec(p.x).add_spec(T::pi_spec());
    (phi.div_spec(T::from_int_spec(2).mul_spec(T::pi_spec())), theta.div_spec(T::pi_spec()))
}

/// The hit of `r` on the sphere around `center`: at the parameter of
/// [`spec_sphere_root`], with the outward normal `(p - center) / radius`.
pub open spec fn spec_sphere_hit<T: RayTracingFloat>(
    center: Point<T>,
    radius: T,
    mat: Rc<MaterialKind<T>>,
    r: Ray<T>,
    t_min: T,
    t_max: T,
) -> Option<HitRecord<T>> {
    match spec_sphere_root(center, radius, r, t_min, t_max) {
        None => None,
        Some(t) => {
            let outward_normal = r.spec_at(t).minus(center).shrunk(radius);
            let uv = spec_sphere_uv(outward_normal);
            Some(spec_record(r, t, outward_normal, uv.0, uv.1, mat))
        },
    }
}

/// The cube around the sphere.
pub open spec fn spec_sphere_box<T: RayTracingFloat>(
    center: Point<T>,
    radius: T,
) -> AxisAlignedBoundingBoxes<T> {
    let rvec = Vec3 { x: radius, y: radius, z: radius };
    AxisAlignedBoundingBoxes { minimum: center.minus(rvec), maximum: center.plus(rvec) }
}

fn sphere_root<T: RayTracingFloat>(
    center: &Point<T>,
    radius: T,
    r: &Ray<T>,
    t_min: &T,
    t_max: &T,
) -> (root: Option<T>)
    ensures
        root == spec_sphere_root(*center, radius, *r, *t_min, *t_max),
{
    let oc = r.orig.minus(*center);
    let a = r.dir.length_squared();
    let half_b = dot(&oc, &r.dir);
    let c = oc.length_squared().sub(radius.mul(radius));
    let discriminant = half_b.mul(half_b).sub(a.mul(c));
    if discriminant.lt(&T::from_int(0)) {
        return None;
    }
    let sqrtd = discriminant.square_root();
    // Find the nearest root that lies in the acceptable range.
    let near = half_b.neg().sub(sqrtd).div(a);
    if in_range(&near, t_min, t_max) {
        return Some(near);
    }
    let far = half_b.neg().add(sqrtd).div(a);
    if in_range(&far, t_min, t_max) {
        return Some(far);
    }
    None
}

fn sphere_hit<T: RayTracingFloat>(
    center: &Point<T>,
    radius: T,
    mat: &Rc<MaterialKind<T>>,
    r: &Ray<T>,
    t_min: &T,
    t_max: &T,
) -> (rec: Option<HitRecord<T>>)
    ensures
        rec == spec_sphere_hit(*center, radius, *mat, *r, *t_min, *t_max),
{
    match sphere_root(center, radius, r, t_min, t_max) {
        None => None,
        Some(t) => {
            let outward_normal = r.at(&t).minus(*center).shrunk(radius);
            let (u, v) = Sphere::get_sphere_uv(&outward_normal);
            Some(HitRecord::new(r, t, &outward_normal, u, v, mat.clone()))
        },
    }
}

fn sphere_box<T: RayTracingFloat>(center: Point<T>, radius: T) -> (b: AxisAlignedBoundingBoxes<T>)
    ensures
        b == spec_sphere_box(center, radius),
{
    let rvec = Vec3::new(radius, radius, radius);
    AxisAlignedBoundingBoxes::new(center.minus(rvec), center.plus(rvec))
}

impl<T: RayTracingFloat> Sphere<T> {
    pub fn new(cen: Point<T>, r: T, m: Rc<MaterialKind<T>>) -> (s: Self)
        ensures
            s.center == cen,
            s.radius == r,
            s.mat == m,
    {
        Sphere { center: cen, radius: r, mat: m }
    }

    pub fn center(&self) -> (r: &Point<T>)
        ensures
            *r == self.center,
    {
        &self.center
    }

    pub fn radius(&self) -> (r: &T)
        ensures
            *r == self.radius,
    {
        &self.radius
    }

    /// The surface coordinates of a point on the sphere of radius one
    /// around the origin: `u` is the angle around the Y axis from `X = -1`,
    /// `v` the angle from `Y = -1` to `Y = +1`, both as a share of the whole.
    pub fn get_sphere_uv(p: &Point<T>) -> (uv: (T, T))
        ensures
            uv == spec_sphere_uv(*p),
    {
        let theta = p.y.neg().acos();
        let phi = p.z.neg().atan2(p.x).add(T::pi());
        (phi.div(T::from_int(2).mul(T::pi())), theta.div(T::pi()))
    }
}

impl<T: RayTracingFloat> Hittable<T> for Sphere<T> {
    open spec fn hit_spec(&self, r: Ray<T>, t_min: T, t_max: T) -> Option<HitRecord<T>> {
        spec_sphere_hit(self.center, self.radius, self.mat, r, t_min, t_max)
    }

    open spec fn bounding_box_spec(&self, time0: T, time1: T) -> Option<AxisAlignedBoundingBoxes<T>> {
        Some(spec_sphere_box(self.center, self.radius))
    }

    fn hit(&self, r: &Ray<T>, t_min: &T, t_max: &T) -> (rec: Option<HitRecord<T>>) {
        sphere_hit(&self.center, self.radius, &self.mat, r, t_min, t_max)
    }

    fn bounding_box(&self, time0: &T, time1: &T) -> (b: Option<AxisAlignedBoundingBoxes<T>>) {
        Some(sphere_box(self.center, self.radius))
    }
}

impl<T: RayTracingFloat> MovingSphere<T> {
    /// Where the centre is at `time`:
    /// `center0 + (center1 - center0) * ((time - time0) / (time1 - time0))`.
    pub open spec fn spec_center(self, time: T) -> Point<T> {
        self.center0.plus(
            self.center1.minus(self.center0).scaled(
                time.sub_spec(self.time0).div_spec(self.time1.sub_spec(self.time0)),
            ),
        )
    }

    pub fn new(cen0: Point<T>, cen1: Point<T>, time0: T, time1: T, r: T, m: Rc<MaterialKind<T>>) -> (s:
        Self)
        ensures
            s.center0 == cen0,
            s.center1 == cen1,
            s.time0 == time0,
            s.time1 == time1,
            s.radius == r,
            s.mat == m,
    {
        MovingSphere { center0: cen0, center1: cen1, time0: time0, time1: time1, radius: r, mat: m }
    }

    pub fn center(&self, time: &T) -> (r: Point<T>)
        ensures
            r == self.spec_center(*time),
    {
        self.center0.plus(
            self.center1.minus(self.center0).scaled(
                time.sub(self.time0).div(self.time1.sub(self.time0)),
            ),
        )
    }

    pub fn radius(&self) -> (r: &T)
        ensures
            *r == self.radius,
    {
        &self.radius
    }
}

impl<T: RayTracingFloat> Hittable<T> for MovingSphere<T> {
    /// The hit on the sphere where it is at the time of the ray.
    open spec fn hit_spec(&self, r: Ray<T>, t_min: T, t_max: T) -> Option<HitRecord<T>> {
        spec_sphere_hit(self.spec_center(r.tm), self.radius, self.mat, r, t_min, t_max)
    }

    /// The box around the sphere at `time0` and the sphere at `time1`.
    open spec fn bounding_box_spec(&self, time0: T, time1: T) -> Option<AxisAlignedBoundingBoxes<T>> {
        Some(
            spec_surrounding_box(
                spec_sphere_box(self.spec_center(time0), self.radius),
                spec_sphere_box(self.spec_center(time1), self.radius),
            ),
        )
    }

    fn hit(&self, r: &Ray<T>, t_min: &T, t_max: &T) -> (rec: Option<HitRecord<T>>) {
        sphere_hit(&self.center(&r.tm), self.radius, &self.mat, r, t_min, t_max)
    }

    fn bounding_box(&self, time0: &T, time1: &T) -> (b: Option<AxisAlignedBoundingBoxes<T>>) {
        let box0 = sphere_box(self.center(time0), self.radius);
        let box1 = sphere_box(self.center(time1), self.radius);
        Some(surrounding_box(&box0, &box1))
    }
}

/// Whether the two roots of the quadratic come in order: the larger one is
/// not below the smaller one.
pub open spec fn spec_roots_in_order<T: RayTracingFloat>(
    center: Point<T>,
    radius: T,
    r: Ray<T>,
) -> bool {
    !spec_far_root(center, radius, r).lt_spec(spec_near_root(center, radius, r))
}

/// The roots come in order for every ray whose direction has a squared
/// length above zero.
pub proof fn lemma_roots_in_order<T: RayTracingFloat>(center: Point<T>, radius: T, r: Ray<T>)
    requires
        T::from_int_spec(0).lt_spec(r.dir.spec_length_squared()),
    ensures
        spec_roots_in_order(center, radius, r),
{
    let minus_half_b = spec_dot(r.orig.minus(center), r.dir).neg_spec();
    let sqrtd = spec_discriminant(center, radius, r).sqrt_spec();
    T::lemma_sqrt_not_negative(spec_discriminant(center, radius, r));
    T::lemma_add_sub_order(minus_half_b, sqrtd);
    T::lemma_div_monotone(
        minus_half_b.sub_spec(sqrtd),
        minus_half_b.add_spec(sqrtd),
        r.dir.spec_length_squared(),
    );
}

/// With its roots in order, a sphere reports the same hit for every upper
/// bound above it, and none for any other.
pub proof fn lemma_sphere_hit_consistent<T: RayTracingFloat>(
    center: Point<T>,
    radius: T,
    mat: Rc<MaterialKind<T>>,
    r: Ray<T>,
    t_min: T,
    t1: T,
    t2: T,
)
    requires
        spec_roots_in_order(center, radius, r),
    ensures
        match spec_sphere_hit(center, radius, mat, r, t_min, t1) {
            Some(h) => {
                &&& t_min.lt_spec(h.t)
                &&& h.t.lt_spec(t1)
                &&& h.t.lt_spec(t2) ==> spec_sphere_hit(center, radius, mat, r, t_min, t2) == Some(
                    h,
                )
                &&& !h.t.lt_spec(t2) ==> spec_sphere_hit(center, radius, mat, r, t_min, t2) is None
            },
            None => true,
        },
{
    let near = spec_near_root(center, radius, r);
    let far = spec_far_root(center, radius, r);
    if !spec_discriminant(center, radius, r).lt_spec(T::from_int_spec(0)) {
        if spec_in_range(near, t_min, t1) {
            if !near.lt_spec(t2) && spec_in_range(far, t_min, t2) {
                // far < t2 <= near
                T::lemma_le_lt(t_min, near);
                T::lemma_number(t_min, near);
                T::lemma_le_lt(far, t2);
                T::lemma_number(far, t2);
                T::lemma_total(near, t2);
                lemma_lt_le_transitive(far, t2, near);
            }
        } else if spec_in_range(far, t_min, t1) {
            if spec_in_range(near, t_min, t2) {
                // far < t1 <= near
                T::lemma_le_lt(t_min, near);
                T::lemma_number(t_min, near);
                T::lemma_le_lt(far, t1);
                T::lemma_number(far, t1);
                T::lemma_total(near, t1);
                lemma_lt_le_transitive(far, t1, near);
            }
        }
    }
}

/// A sphere is consistent for every ray that has a direction.
pub proof fn lemma_sphere_consistent<T: RayTracingFloat>(s: Sphere<T>, r: Ray<T>, t_min: T)
    requires
        T::from_int_spec(0).lt_spec(r.dir.spec_length_squared()),
    ensures
        spec_consistent(Primitive::Sphere(s), r, t_min),
{
    lemma_roots_in_order(s.center, s.radius, r);
    let o = Primitive::Sphere(s);
    assert forall|t1: T, t2: T|
        #![trigger o.hit_spec(r, t_min, t1), o.hit_spec(r, t_min, t2)]
        spec_cut_off(o, r, t_min, t1, t2) by {
        lemma_sphere_hit_consistent(s.center, s.radius, s.mat, r, t_min, t1, t2);
    }
}

/// A moving sphere is consistent for every ray that has a direction.
pub proof fn lemma_moving_sphere_consistent<T: RayTracingFloat>(
    s: MovingSphere<T>,
    r: Ray<T>,
    t_min: T,
)
    requires
        T::from_int_spec(0).lt_spec(r.dir.spec_length_squared()),
    ensures
        spec_consistent(Primitive::MovingSphere(s), r, t_min),
{
    lemma_roots_in_order(s.spec_center(r.tm), s.radius, r);
    let o = Primitive::MovingSphere(s);
    assert forall|t1: T, t2: T|
        #![trigger o.hit_spec(r, t_min, t1), o.hit_spec(r, t_min, t2)]
        spec_cut_off(o, r, t_min, t1, t2) by {
        lemma_sphere_hit_consistent(s.spec_center(r.tm), s.radius, s.mat, r, t_min, t1, t2);
    }
}

} // verus!
