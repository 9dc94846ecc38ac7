//! What a ray can hit: the record of a hit and the capability of being hit.
use crate::aabb::spec_surrounding_box;
use crate::aabb::surrounding_box;
use crate::aabb::AxisAlignedBoundingBoxes;
use crate::bvh::BVH_Node;
use crate::hittable_box::Box;
use crate::hittable_box::XY_Rect;
use crate::hittable_box::XZ_Rect;
use crate::hittable_box::YZ_Rect;
use crate::hittable_sphere::MovingSphere;
use crate::hittable_sphere::Sphere;
use crate::material::MaterialKind;
use crate::ray::spec_zero;
use crate::ray::Point;
use crate::ray::Ray;
use crate::ray::Vector;
use crate::scalar::RayTracingFloat;
use crate::utils::lemma_le_lt_transitive;
use crate::utils::lemma_lt_le_transitive;
use crate::utils::max;
use crate::utils::min;
use crate::utils::spec_max;
use crate::utils::spec_min;
use crate::vec3::dot;
use crate::vec3::spec_dot;
use crate::vec3::Vec3;
use std::rc::Rc;
use vstd::prelude::*;
use vstd::seq_lib::to_multiset_contains;

verus! {

/// Where and how a ray met a surface.
///
/// `normal` always faces the incoming ray; `front_face` tells whether the
/// surface's own outward normal did so already.
pub struct HitRecord<T: RayTracingFloat> {
    pub p: Point<T>,
    pub normal: Vector<T>,
    pub mat: Rc<MaterialKind<T>>,
    pub t: T,
    pub u: T,
    pub v: T,
    pub front_face: bool,
}

/// Whether `t` lies strictly between `t_min` and `t_max`.
pub open spec fn spec_in_range<T: RayTracingFloat>(t: T, t_min: T, t_max: T) -> bool {
    t_min.lt_spec(t) && t.lt_spec(t_max)
}

/// Whether the outward normal faces a ray of direction `direction`: their
/// product is negative.
pub open spec fn spec_front_face<T: RayTracingFloat>(
    direction: Vector<T>,
    outward_normal: Vector<T>,
) -> bool {
    spec_dot(direction, outward_normal).lt_spec(T::from_int_spec(0))
}

/// The outward normal, turned against the ray where it does not face it.
pub open spec fn spec_face_normal<T: RayTracingFloat>(
    direction: Vector<T>,
    outward_normal: Vector<T>,
) -> Vector<T> {
    if spec_front_face(direction, outward_normal) {
        outward_normal
    } else {
        outward_normal.negated()
    }
}

/// The record of a hit of `r` at parameter `t` on a surface with the given
/// outward normal, surface coordinates and material.
pub open spec fn spec_record<T: RayTracingFloat>(
    r: Ray<T>,
    t: T,
    outward_normal: Vector<T>,
    u: T,
    v: T,
    mat: Rc<MaterialKind<T>>,
) -> HitRecord<T> {
    HitRecord {
        p: r.spec_at(t),
        normal: spec_face_normal(r.dir, outward_normal),
        mat: mat,
        t: t,
        u: u,
        v: v,
        front_face: spec_front_face(r.dir, outward_normal),
    }
}

pub fn in_range<T: RayTracingFloat>(t: &T, t_min: &T, t_max: &T) -> (b: bool)
    ensures
        b == spec_in_range(*t, *t_min, *t_max),
{
    t_min.lt(t) && t.lt(t_max)
}

impl<T: RayTracingFloat> HitRecord<T> {
    /// The record of a hit of `r` at parameter `t`.
    pub fn new(
        r: &Ray<T>,
        t: T,
        outward_normal: &Vector<T>,
        u: T,
        v: T,
        mat: Rc<MaterialKind<T>>,
    ) -> (rec: Self)
        ensures
            rec == spec_record(*r, t, *outward_normal, u, v, mat),
    {
        let mut rec = HitRecord {
            p: r.at(&t),
            normal: *outward_normal,
            mat: mat,
            t: t,
            u: u,
            v: v,
            front_face: true,
        };
        rec.set_face_normal(r, outward_normal);
        rec
    }

    pub fn point(&self) -> (r: &Vector<T>)
        ensures
            *r == self.p,
    {
        &self.p
    }

    pub fn normal(&self) -> (r: &Vector<T>)
        ensures
            *r == self.normal,
    {
        &self.normal
    }

    pub fn front_face(&self) -> (r: &bool)
        ensures
            *r == self.front_face,
    {
        &self.front_face
    }

    /// The material at the hit point, shared with the surface.
    pub fn material(&self) -> (r: Rc<MaterialKind<T>>)
        ensures
            r == self.mat,
    {
        self.mat.clone()
    }

    /// Sets `front_face` and turns `normal` against the ray `r`.
    pub fn set_face_normal(&mut self, r: &Ray<T>, outward_normal: &Vector<T>)
        ensures
            *final(self) == (HitRecord {
                normal: spec_face_normal(r.dir, *outward_normal),
                front_face: spec_front_face(r.dir, *outward_normal),
                ..*old(self)
            }),
    {
        self.front_face = dot(&r.dir, outward_normal).lt(&T::from_int(0));
        self.normal = if self.front_face {
            *outward_normal
        } else {
            outward_normal.negated()
        };
    }
}

/// A surface, or a collection of surfaces, that a ray can be tested against.
pub trait Hittable<T: RayTracingFloat> {
    /// The nearest hit of `r` with a parameter strictly between `t_min` and
    /// `t_max`, if there is one.
    spec fn hit_spec(&self, r: Ray<T>, t_min: T, t_max: T) -> Option<HitRecord<T>>;

    /// A box around everything that can be hit between the times `time0`
    /// and `time1`. Only an empty collection, and what is built on one, has
    /// none.
    spec fn bounding_box_spec(&self, time0: T, time1: T) -> Option<AxisAlignedBoundingBoxes<T>>;

    fn hit(&self, r: &Ray<T>, t_min: &T, t_max: &T) -> (rec: Option<HitRecord<T>>)
        ensures
            rec == self.hit_spec(*r, *t_min, *t_max),
    ;

    fn bounding_box(&self, time0: &T, time1: &T) -> (b: Option<AxisAlignedBoundingBoxes<T>>)
        ensures
            b == self.bounding_box_spec(*time0, *time1),
    ;
}

/// An ordered collection of primitives.
pub struct HittableList<T: RayTracingFloat> {
    pub objects: Vec<Rc<Primitive<T>>>,
}

/// A primitive moved by `offset`.
pub struct Translate<T: RayTracingFloat> {
    pub ptr: Rc<Primitive<T>>,
    pub offset: Vector<T>,
}

/// A primitive turned about the Y axis.
///
/// `bbox` is the box around the turned primitive, found once when the value
/// is made; `hasbox` tells whether the primitive had a box at all.
#[allow(non_camel_case_types)]
pub struct Rotate_Y<T: RayTracingFloat> {
    pub ptr: Rc<Primitive<T>>,
    pub sin_theta: T,
    pub cos_theta: T,
    pub hasbox: bool,
    pub bbox: AxisAlignedBoundingBoxes<T>,
}

/// Everything that a scene is made of. Composite primitives share the
/// primitives below them; nothing is copied.
pub enum Primitive<T: RayTracingFloat> {
    Sphere(Sphere<T>),
    MovingSphere(MovingSphere<T>),
    XYRect(XY_Rect<T>),
    XZRect(XZ_Rect<T>),
    YZRect(YZ_Rect<T>),
    Box(Box<T>),
    List(HittableList<T>),
    Translate(Translate<T>),
    RotateY(Rotate_Y<T>),
    Bvh(BVH_Node<T>),
}

/// The parameter below which a later hit has to stay: that of the hit found
/// so far, or `t_max` where there is none.
pub open spec fn spec_closest<T: RayTracingFloat>(found: Option<HitRecord<T>>, t_max: T) -> T {
    match found {
        Some(h) => h.t,
        None => t_max,
    }
}

/// The nearest hit among `objects`, found by testing them in order: each
/// object is tested up to the nearest hit before it, so a later object
/// replaces an earlier one only with a hit that is strictly nearer.
pub open spec fn spec_scan<T: RayTracingFloat>(
    objects: Seq<Rc<Primitive<T>>>,
    r: Ray<T>,
    t_min: T,
    t_max: T,
) -> Option<HitRecord<T>>
    decreases objects, 0int,
{
    if objects.len() == 0 {
        None
    } else {
        let before = spec_scan(objects.drop_last(), r, t_min, t_max);
        match objects.last().hit_spec(r, t_min, spec_closest(before, t_max)) {
            Some(h) => Some(h),
            None => before,
        }
    }
}

/// The box around all of `objects`: none for an empty sequence or where
/// one object has none; else the box of the first, widened by each of the
/// others in turn.
pub open spec fn spec_list_box<T: RayTracingFloat>(
    objects: Seq<Rc<Primitive<T>>>,
    time0: T,
    time1: T,
) -> Option<AxisAlignedBoundingBoxes<T>>
    decreases objects, 0int,
{
    if objects.len() == 0 {
        None
    } else {
        match objects.last().bounding_box_spec(time0, time1) {
            None => None,
            Some(b) => if objects.len() == 1 {
                Some(b)
            } else {
                match spec_list_box(objects.drop_last(), time0, time1) {
                    None => None,
                    Some(acc) => Some(spec_surrounding_box(acc, b)),
                }
            },
        }
    }
}

/// `v` turned about the Y axis by the angle with the given sine and
/// cosine: `(cos * x + sin * z, y, -sin * x + cos * z)`.
pub open spec fn spec_rotate<T: RayTracingFloat>(v: Vector<T>, sin_theta: T, cos_theta: T) -> Vector<
    T,
> {
    Vec3 {
        x: cos_theta.mul_spec(v.x).add_spec(sin_theta.mul_spec(v.z)),
        y: v.y,
        z: sin_theta.neg_spec().mul_spec(v.x).add_spec(cos_theta.mul_spec(v.z)),
    }
}

/// `v` turned back: `(cos * x - sin * z, y, sin * x + cos * z)`.
pub open spec fn spec_rotate_back<T: RayTracingFloat>(
    v: Vector<T>,
    sin_theta: T,
    cos_theta: T,
) -> Vector<T> {
    Vec3 {
        x: cos_theta.mul_spec(v.x).sub_spec(sin_theta.mul_spec(v.z)),
        y: v.y,
        z: sin_theta.mul_spec(v.x).add_spec(cos_theta.mul_spec(v.z)),
    }
}

/// Corner `n` of a box, for `n` from 0 to 7: the bits of `n` choose the
/// maximum on `x` (bit 2), on `y` (bit 1) and on `z` (bit 0).
pub open spec fn spec_corner<T: RayTracingFloat>(b: AxisAlignedBoundingBoxes<T>, n: int) -> Point<T> {
    Vec3 {
        x: if (n / 4) % 2 == 1 {
            b.maximum.x
        } else {
            b.minimum.x
        },
        y: if (n / 2) % 2 == 1 {
            b.maximum.y
        } else {
            b.minimum.y
        },
        z: if n % 2 == 1 {
            b.maximum.z
        } else {
            b.minimum.z
        },
    }
}

/// The box with nothing in it: every minimum is infinite, every maximum the
/// negation of that.
pub open spec fn spec_empty_box<T: RayTracingFloat>() -> AxisAlignedBoundingBoxes<T> {
    let inf = T::infinity_spec();
    let ninf = T::infinity_spec().neg_spec();
    AxisAlignedBoundingBoxes {
        minimum: Vec3 { x: inf, y: inf, z: inf },
        maximum: Vec3 { x: ninf, y: ninf, z: ninf },
    }
}

/// `acc` widened to hold the point `p`.
pub open spec fn spec_grow<T: RayTracingFloat>(
    acc: AxisAlignedBoundingBoxes<T>,
    p: Point<T>,
) -> AxisAlignedBoundingBoxes<T> {
    AxisAlignedBoundingBoxes {
        minimum: Vec3 {
            x: spec_min(acc.minimum.x, p.x),
            y: spec_min(acc.minimum.y, p.y),
            z: spec_min(acc.minimum.z, p.z),
        },
        maximum: Vec3 {
            x: spec_max(acc.maximum.x, p.x),
            y: spec_max(acc.maximum.y, p.y),
            z: spec_max(acc.maximum.z, p.z),
        },
    }
}

/// The box around the first `n` corners of `b`, each turned about the Y axis.
pub open spec fn spec_rotated_box<T: RayTracingFloat>(
    b: AxisAlignedBoundingBoxes<T>,
    sin_theta: T,
    cos_theta: T,
    n: int,
) -> AxisAlignedBoundingBoxes<T>
    decreases n,
{
    if n <= 0 {
        spec_empty_box()
    } else {
        spec_grow(
            spec_rotated_box(b, sin_theta, cos_theta, n - 1),
            spec_rotate(spec_corner(b, n - 1), sin_theta, cos_theta),
        )
    }
}

/// An angle in degrees as radians: `angle * (pi / 180)`.
pub open spec fn spec_radians<T: RayTracingFloat>(angle: T) -> T {
    angle.mul_spec(T::pi_spec().div_spec(T::from_int_spec(180)))
}

fn rotate<T: RayTracingFloat>(v: &Vector<T>, sin_theta: T, cos_theta: T) -> (r: Vector<T>)
    ensures
        r == spec_rotate(*v, sin_theta, cos_theta),
{
    Vec3::new(
        cos_theta.mul(v.x).add(sin_theta.mul(v.z)),
        v.y,
        sin_theta.neg().mul(v.x).add(cos_theta.mul(v.z)),
    )
}

fn rotate_back<T: RayTracingFloat>(v: &Vector<T>, sin_theta: T, cos_theta: T) -> (r: Vector<T>)
    ensures
        r == spec_rotate_back(*v, sin_theta, cos_theta),
{
    Vec3::new(
        cos_theta.mul(v.x).sub(sin_theta.mul(v.z)),
        v.y,
        sin_theta.mul(v.x).add(cos_theta.mul(v.z)),
    )
}

impl<T: RayTracingFloat> HittableList<T> {
    pub fn new_empty() -> (r: Self)
        ensures
            r.objects@ == Seq::<Rc<Primitive<T>>>::empty(),
    {
        HittableList { objects: Vec::new() }
    }

    pub fn new(object: Rc<Primitive<T>>) -> (r: Self)
        ensures
            r.objects@ == seq![object],
    {
        let mut objects = Vec::new();
        objects.push(object);
        HittableList { objects: objects }
    }

    pub fn get_objects(&self) -> (r: &Vec<Rc<Primitive<T>>>)
        ensures
            *r == self.objects,
    {
        &self.objects
    }

    pub fn clear(&mut self)
        ensures
            final(self).objects@ == Seq::<Rc<Primitive<T>>>::empty(),
    {
        self.objects.clear();
    }

    pub fn add(&mut self, object: Rc<Primitive<T>>)
        ensures
            final(self).objects@ == old(self).objects@.push(object),
    {
        self.objects.push(object);
    }
}

impl<T: RayTracingFloat> Hittable<T> for HittableList<T> {
    open spec fn hit_spec(&self, r: Ray<T>, t_min: T, t_max: T) -> Option<HitRecord<T>>
        decreases self, 1int,
    {
        spec_scan(self.objects@, r, t_min, t_max)
    }

    open spec fn bounding_box_spec(&self, time0: T, time1: T) -> Option<AxisAlignedBoundingBoxes<T>>
        decreases self, 1int,
    {
        spec_list_box(self.objects@, time0, time1)
    }

    fn hit(&self, r: &Ray<T>, t_min: &T, t_max: &T) -> (rec: Option<HitRecord<T>>)
        decreases self, 1int,
    {
        let mut found: Option<HitRecord<T>> = None;
        let mut closest_so_far = *t_max;
        let mut i: usize = 0;
        while i < self.objects.len()
            invariant
                i <= self.objects.len(),
                found == spec_scan(self.objects@.take(i as int), *r, *t_min, *t_max),
                closest_so_far == spec_closest(found, *t_max),
                decreases_to!(*self => self.objects),
            decreases self.objects.len() - i,
        {
            assert(self.objects@.take(i + 1).drop_last() == self.objects@.take(i as int));
            match self.objects[i].hit(r, t_min, &closest_so_far) {
                Some(h) => {
                    closest_so_far = h.t;
                    found = Some(h);
                },
                None => {},
            }
            i += 1;
        }
        assert(self.objects@.take(i as int) == self.objects@);
        found
    }

    fn bounding_box(&self, time0: &T, time1: &T) -> (b: Option<AxisAlignedBoundingBoxes<T>>)
        decreases self, 1int,
    {
        if self.objects.len() == 0 {
            return None;
        }
        let mut output_box: Option<AxisAlignedBoundingBoxes<T>> = None;
        let mut i: usize = 0;
        while i < self.objects.len()
            invariant
                i <= self.objects.len(),
                i > 0 ==> output_box.is_some(),
                output_box == spec_list_box(self.objects@.take(i as int), *time0, *time1),
                decreases_to!(*self => self.objects),
            decreases self.objects.len() - i,
        {
            assert(self.objects@.take(i + 1).drop_last() == self.objects@.take(i as int));
            match self.objects[i].bounding_box(time0, time1) {
                None => {
                    proof {
                        lemma_list_box_none(self.objects@, i as int, *time0, *time1);
                    }
                    return None;
                },
                Some(temp_box) => {
                    output_box = match output_box {
                        None => Some(temp_box),
                        Some(acc) => Some(surrounding_box(&acc, &temp_box)),
                    };
                },
            }
            i += 1;
        }
        assert(self.objects@.take(i as int) == self.objects@);
        output_box
    }
}

/// A sequence with an object that has no box has no box.
pub proof fn lemma_list_box_none<T: RayTracingFloat>(
    objects: Seq<Rc<Primitive<T>>>,
    i: int,
    time0: T,
    time1: T,
)
    requires
        0 <= i < objects.len(),
        objects[i].bounding_box_spec(time0, time1) is None,
    ensures
        spec_list_box(objects, time0, time1) is None,
    decreases objects.len(),
{
    if i < objects.len() - 1 {
        lemma_list_box_none(objects.drop_last(), i, time0, time1);
    }
}

impl<T: RayTracingFloat> Translate<T> {
    pub fn new(p: Rc<Primitive<T>>, displacement: Vector<T>) -> (r: Self)
        ensures
            r.ptr == p,
            r.offset == displacement,
    {
        Translate { ptr: p, offset: displacement }
    }
}

impl<T: RayTracingFloat> Hittable<T> for Translate<T> {
    /// The hit of the ray moved back by the offset, with its point moved
    /// forward again. The normal stays as it is.
    open spec fn hit_spec(&self, r: Ray<T>, t_min: T, t_max: T) -> Option<HitRecord<T>>
        decreases self, 1int,
    {
        let moved_r = Ray { orig: r.orig.minus(self.offset), dir: r.dir, tm: r.tm };
        match self.ptr.hit_spec(moved_r, t_min, t_max) {
            None => None,
            Some(h) => Some(HitRecord { p: h.p.plus(self.offset), ..h }),
        }
    }

    /// The box of the primitive, moved by the offset.
    open spec fn bounding_box_spec(&self, time0: T, time1: T) -> Option<AxisAlignedBoundingBoxes<T>>
        decreases self, 1int,
    {
        match self.ptr.bounding_box_spec(time0, time1) {
            None => None,
            Some(b) => Some(
                AxisAlignedBoundingBoxes {
                    minimum: b.minimum.plus(self.offset),
                    maximum: b.maximum.plus(self.offset),
                },
            ),
        }
    }

    fn hit(&self, r: &Ray<T>, t_min: &T, t_max: &T) -> (rec: Option<HitRecord<T>>)
        decreases self, 1int,
    {
        let moved_r = Ray::new(r.orig.minus(self.offset), r.dir, r.tm);
        match self.ptr.hit(&moved_r, t_min, t_max) {
            None => None,
            Some(h) => {
                let mut h = h;
                h.p = h.p.plus(self.offset);
                Some(h)
            },
        }
    }

    fn bounding_box(&self, time0: &T, time1: &T) -> (b: Option<AxisAlignedBoundingBoxes<T>>)
        decreases self, 1int,
    {
        match self.ptr.bounding_box(time0, time1) {
            None => None,
            Some(b) => Some(
                AxisAlignedBoundingBoxes::new(
                    b.minimum.plus(self.offset),
                    b.maximum.plus(self.offset),
                ),
            ),
        }
    }
}

impl<T: RayTracingFloat> Rotate_Y<T> {
    /// `p` turned by `angle` degrees about the Y axis. The box is that of
    /// `p` between the times 0 and 1 with its eight corners turned; where
    /// `p` has no box, the box at the origin with no extent stands in for it.
    pub fn new(p: Rc<Primitive<T>>, angle: T) -> (r: Self)
        ensures
            r.ptr == p,
            r.sin_theta == spec_radians(angle).sin_spec(),
            r.cos_theta == spec_radians(angle).cos_spec(),
            r.hasbox == p.bounding_box_spec(T::from_int_spec(0), T::from_int_spec(1)).is_some(),
            r.bbox == spec_rotated_box(
                match p.bounding_box_spec(T::from_int_spec(0), T::from_int_spec(1)) {
                    Some(b) => b,
                    None => AxisAlignedBoundingBoxes { minimum: spec_zero(), maximum: spec_zero() },
                },
                r.sin_theta,
                r.cos_theta,
                8,
            ),
    {
        let radians = angle.mul(T::pi().div(T::from_int(180)));
        let sin_theta = radians.sin();
        let cos_theta = radians.cos();
        let found = p.bounding_box(&T::from_int(0), &T::from_int(1));
        let hasbox = found.is_some();
        let bbox = match found {
            Some(b) => b,
            None => AxisAlignedBoundingBoxes::new(Vec3::zero(), Vec3::zero()),
        };
        let inf = T::infinity();
        let ninf = T::infinity().neg();
        let mut lo = Vec3::new(inf, inf, inf);
        let mut hi = Vec3::new(ninf, ninf, ninf);
        let mut n: usize = 0;
        while n < 8
            invariant
                n <= 8,
                (AxisAlignedBoundingBoxes { minimum: lo, maximum: hi }) == spec_rotated_box(
                    bbox,
                    sin_theta,
                    cos_theta,
                    n as int,
                ),
            decreases 8 - n,
        {
            let corner = Vec3::new(
                if (n / 4) % 2 == 1 {
                    bbox.maximum.x
                } else {
                    bbox.minimum.x
                },
                if (n / 2) % 2 == 1 {
                    bbox.maximum.y
                } else {
                    bbox.minimum.y
                },
                if n % 2 == 1 {
                    bbox.maximum.z
                } else {
                    bbox.minimum.z
                },
            );
            let tester = rotate(&corner, sin_theta, cos_theta);
            lo = Vec3::new(min(lo.x, tester.x), min(lo.y, tester.y), min(lo.z, tester.z));
            hi = Vec3::new(max(hi.x, tester.x), max(hi.y, tester.y), max(hi.z, tester.z));
            n += 1;
        }
        Rotate_Y {
            ptr: p,
            sin_theta: sin_theta,
            cos_theta: cos_theta,
            hasbox: hasbox,
            bbox: AxisAlignedBoundingBoxes::new(lo, hi),
        }
    }
}

impl<T: RayTracingFloat> Hittable<T> for Rotate_Y<T> {
    /// The hit of the ray turned back into the space of the primitive, with
    /// its point and its normal turned forward again.
    open spec fn hit_spec(&self, r: Ray<T>, t_min: T, t_max: T) -> Option<HitRecord<T>>
        decreases self, 1int,
    {
        let rotated_r = Ray {
            orig: spec_rotate_back(r.orig, self.sin_theta, self.cos_theta),
            dir: spec_rotate_back(r.dir, self.sin_theta, self.cos_theta),
            tm: r.tm,
        };
        match self.ptr.hit_spec(rotated_r, t_min, t_max) {
            None => None,
            Some(h) => Some(
                HitRecord {
                    p: spec_rotate(h.p, self.sin_theta, self.cos_theta),
                    normal: spec_rotate(h.normal, self.sin_theta, self.cos_theta),
                    ..h
                },
            ),
        }
    }

    /// The box found when the value was made, whatever the times.
    open spec fn bounding_box_spec(&self, time0: T, time1: T) -> Option<AxisAlignedBoundingBoxes<T>> {
        if self.hasbox {
            Some(self.bbox)
        } else {
            None
        }
    }

    fn hit(&self, r: &Ray<T>, t_min: &T, t_max: &T) -> (rec: Option<HitRecord<T>>)
        decreases self, 1int,
    {
        let rotated_r = Ray::new(
            rotate_back(&r.orig, self.sin_theta, self.cos_theta),
            rotate_back(&r.dir, self.sin_theta, self.cos_theta),
            r.tm,
        );
        match self.ptr.hit(&rotated_r, t_min, t_max) {
            None => None,
            Some(h) => {
                let mut h = h;
                let p = rotate(&h.p, self.sin_theta, self.cos_theta);
                let normal = rotate(&h.normal, self.sin_theta, self.cos_theta);
                h.p = p;
                h.normal = normal;
                Some(h)
            },
        }
    }

    fn bounding_box(&self, time0: &T, time1: &T) -> (b: Option<AxisAlignedBoundingBoxes<T>>) {
        if self.hasbox {
            Some(self.bbox)
        } else {
            None
        }
    }
}

impl<T: RayTracingFloat> Hittable<T> for Primitive<T> {
    open spec fn hit_spec(&self, r: Ray<T>, t_min: T, t_max: T) -> Option<HitRecord<T>>
        decreases self, 0int,
    {
        match self {
            Primitive::Sphere(s) => s.hit_spec(r, t_min, t_max),
            Primitive::MovingSphere(s) => s.hit_spec(r, t_min, t_max),
            Primitive::XYRect(s) => s.hit_spec(r, t_min, t_max),
            Primitive::XZRect(s) => s.hit_spec(r, t_min, t_max),
            Primitive::YZRect(s) => s.hit_spec(r, t_min, t_max),
            Primitive::Box(s) => s.hit_spec(r, t_min, t_max),
            Primitive::List(s) => s.hit_spec(r, t_min, t_max),
            Primitive::Translate(s) => s.hit_spec(r, t_min, t_max),
            Primitive::RotateY(s) => s.hit_spec(r, t_min, t_max),
            Primitive::Bvh(s) => s.hit_spec(r, t_min, t_max),
        }
    }

    open spec fn bounding_box_spec(&self, time0: T, time1: T) -> Option<AxisAlignedBoundingBoxes<T>>
        decreases self, 0int,
    {
        match self {
            Primitive::Sphere(s) => s.bounding_box_spec(time0, time1),
            Primitive::MovingSphere(s) => s.bounding_box_spec(time0, time1),
            Primitive::XYRect(s) => s.bounding_box_spec(time0, time1),
            Primitive::XZRect(s) => s.bounding_box_spec(time0, time1),
            Primitive::YZRect(s) => s.bounding_box_spec(time0, time1),
            Primitive::Box(s) => s.bounding_box_spec(time0, time1),
            Primitive::List(s) => s.bounding_box_spec(time0, time1),
            Primitive::Translate(s) => s.bounding_box_spec(time0, time1),
            Primitive::RotateY(s) => s.bounding_box_spec(time0, time1),
            Primitive::Bvh(s) => s.bounding_box_spec(time0, time1),
        }
    }

    fn hit(&self, r: &Ray<T>, t_min: &T, t_max: &T) -> (rec: Option<HitRecord<T>>)
        decreases self, 0int,
    {
        match self {
            Primitive::Sphere(s) => s.hit(r, t_min, t_max),
            Primitive::MovingSphere(s) => s.hit(r, t_min, t_max),
            Primitive::XYRect(s) => s.hit(r, t_min, t_max),
            Primitive::XZRect(s) => s.hit(r, t_min, t_max),
            Primitive::YZRect(s) => s.hit(r, t_min, t_max),
            Primitive::Box(s) => s.hit(r, t_min, t_max),
            Primitive::List(s) => s.hit(r, t_min, t_max),
            Primitive::Translate(s) => s.hit(r, t_min, t_max),
            Primitive::RotateY(s) => s.hit(r, t_min, t_max),
            Primitive::Bvh(s) => s.hit(r, t_min, t_max),
        }
    }

    fn bounding_box(&self, time0: &T, time1: &T) -> (b: Option<AxisAlignedBoundingBoxes<T>>)
        decreases self, 0int,
    {
        match self {
            Primitive::Sphere(s) => s.bounding_box(time0, time1),
            Primitive::MovingSphere(s) => s.bounding_box(time0, time1),
            Primitive::XYRect(s) => s.bounding_box(time0, time1),
            Primitive::XZRect(s) => s.bounding_box(time0, time1),
            Primitive::YZRect(s) => s.bounding_box(time0, time1),
            Primitive::Box(s) => s.bounding_box(time0, time1),
            Primitive::List(s) => s.bounding_box(time0, time1),
            Primitive::Translate(s) => s.bounding_box(time0, time1),
            Primitive::RotateY(s) => s.bounding_box(time0, time1),
            Primitive::Bvh(s) => s.bounding_box(time0, time1),
        }
    }
}

/// Whether the hit that `o` reports with the upper bound `t1` is cut off,
/// and nothing else, by the upper bound `t2`: the hit lies strictly between
/// `t_min` and `t1`, it is found again with `t2` where `t2` is above it, and
/// nothing is found with `t2` where it is not.
pub open spec fn spec_cut_off<T: RayTracingFloat>(
    o: Primitive<T>,
    r: Ray<T>,
    t_min: T,
    t1: T,
    t2: T,
) -> bool {
    match o.hit_spec(r, t_min, t1) {
        Some(h) => {
            &&& t_min.lt_spec(h.t)
            &&& h.t.lt_spec(t1)
            &&& h.t.lt_spec(t2) ==> o.hit_spec(r, t_min, t2) == Some(h)
            &&& !h.t.lt_spec(t2) ==> o.hit_spec(r, t_min, t2) is None
        },
        None => true,
    }
}

/// Whether the hit that `o` reports does not depend on the upper bound it is
/// asked with, other than by being cut off: a hit lies strictly between
/// `t_min` and the bound it was found with, it is found again with every
/// bound above it, and nothing is found with a bound that is not above it.
pub open spec fn spec_consistent<T: RayTracingFloat>(o: Primitive<T>, r: Ray<T>, t_min: T) -> bool {
    forall|t1: T, t2: T|
        #![trigger o.hit_spec(r, t_min, t1), o.hit_spec(r, t_min, t2)]
        spec_cut_off(o, r, t_min, t1, t2)
}

/// Whether every one of `objects` is consistent for the ray `r` above `t_min`.
pub open spec fn spec_all_consistent<T: RayTracingFloat>(
    objects: Seq<Rc<Primitive<T>>>,
    r: Ray<T>,
    t_min: T,
) -> bool {
    forall|i: int| 0 <= i < objects.len() ==> spec_consistent(*(#[trigger] objects[i]), r, t_min)
}

/// Testing `a` and then `b` is testing `a + b`: the objects of `b` are
/// tested up to the nearest hit among `a`.
pub proof fn lemma_scan_append<T: RayTracingFloat>(
    a: Seq<Rc<Primitive<T>>>,
    b: Seq<Rc<Primitive<T>>>,
    r: Ray<T>,
    t_min: T,
    t_max: T,
)
    ensures
        spec_scan(a + b, r, t_min, t_max) == (match spec_scan(
            b,
            r,
            t_min,
            spec_closest(spec_scan(a, r, t_min, t_max), t_max),
        ) {
            Some(h) => Some(h),
            None => spec_scan(a, r, t_min, t_max),
        }),
    decreases b.len(),
{
    if b.len() > 0 {
        lemma_scan_append(a, b.drop_last(), r, t_min, t_max);
        assert((a + b).drop_last() == a + b.drop_last());
    }
}

/// Among consistent objects a scan finds a nearest hit: the hit that it
/// returns is the hit of one of the objects, and no object has a hit that is
/// nearer. Where it returns nothing, no object has a hit.
pub proof fn lemma_scan_nearest<T: RayTracingFloat>(
    objects: Seq<Rc<Primitive<T>>>,
    r: Ray<T>,
    t_min: T,
    t_max: T,
)
    requires
        spec_all_consistent(objects, r, t_min),
    ensures
        match spec_scan(objects, r, t_min, t_max) {
            Some(h) => {
                &&& exists|i: int|
                    0 <= i < objects.len() && (#[trigger] objects[i]).hit_spec(r, t_min, t_max)
                        == Some(h)
                &&& forall|j: int|
                    0 <= j < objects.len() ==> match (#[trigger] objects[j]).hit_spec(
                        r,
                        t_min,
                        t_max,
                    ) {
                        Some(hj) => !hj.t.lt_spec(h.t),
                        None => true,
                    }
            },
            None => forall|j: int|
                0 <= j < objects.len() ==> (#[trigger] objects[j]).hit_spec(r, t_min, t_max) is None,
        },
    decreases objects.len(),
{
    if objects.len() > 0 {
        let rest = objects.drop_last();
        let last = objects.len() - 1;
        assert(spec_all_consistent(rest, r, t_min));
        lemma_scan_nearest(rest, r, t_min, t_max);
        let before = spec_scan(rest, r, t_min, t_max);
        let found = objects.last().hit_spec(r, t_min, spec_closest(before, t_max));
        match before {
            None => {
                match found {
                    Some(h) => {
                        T::lemma_lt_irreflexive(h.t);
                        assert forall|j: int| 0 <= j < objects.len() implies match (
                        #[trigger] objects[j]).hit_spec(r, t_min, t_max) {
                            Some(hj) => !hj.t.lt_spec(h.t),
                            None => true,
                        } by {
                            if j < last {
                                assert(rest[j] == objects[j]);
                            }
                        }
                    },
                    None => {
                        assert forall|j: int| 0 <= j < objects.len() implies (
                        #[trigger] objects[j]).hit_spec(r, t_min, t_max) is None by {
                            if j < last {
                                assert(rest[j] == objects[j]);
                            }
                        }
                    },
                }
            },
            Some(hb) => {
                // The hit among the objects before lies below the bound.
                let i0 = choose|i: int|
                    0 <= i < rest.len() && (#[trigger] rest[i]).hit_spec(r, t_min, t_max) == Some(
                        hb,
                    );
                match found {
                    Some(h) => {
                        // The last object is strictly nearer, so it is found
                        // with the whole bound too.
                        T::lemma_lt_transitive(h.t, hb.t, t_max);
                        T::lemma_lt_irreflexive(h.t);
                        assert forall|j: int| 0 <= j < objects.len() implies match (
                        #[trigger] objects[j]).hit_spec(r, t_min, t_max) {
                            Some(hj) => !hj.t.lt_spec(h.t),
                            None => true,
                        } by {
                            if j < last {
                                match rest[j].hit_spec(r, t_min, t_max) {
                                    Some(hj) => {
                                        if hj.t.lt_spec(h.t) {
                                            T::lemma_lt_transitive(hj.t, h.t, hb.t);
                                        }
                                    },
                                    None => {},
                                }
                            }
                        }
                    },
                    None => {
                        // A nearer hit of the last object would have been found.
                        assert forall|j: int| 0 <= j < objects.len() implies match (
                        #[trigger] objects[j]).hit_spec(r, t_min, t_max) {
                            Some(hj) => !hj.t.lt_spec(hb.t),
                            None => true,
                        } by {
                            if j < last {
                                assert(rest[j] == objects[j]);
                            }
                        }
                    },
                }
            },
        }
    }
}

/// The nearest hit among consistent objects does not depend on their order:
/// two sequences that hold the same objects either both find nothing, or
/// find hits of which neither is nearer than the other.
pub proof fn lemma_scan_order_free<T: RayTracingFloat>(
    a: Seq<Rc<Primitive<T>>>,
    b: Seq<Rc<Primitive<T>>>,
    r: Ray<T>,
    t_min: T,
    t_max: T,
)
    requires
        a.to_multiset() == b.to_multiset(),
        spec_all_consistent(a, r, t_min),
    ensures
        spec_all_consistent(b, r, t_min),
        match (spec_scan(a, r, t_min, t_max), spec_scan(b, r, t_min, t_max)) {
            (None, None) => true,
            (Some(ha), Some(hb)) => !ha.t.lt_spec(hb.t) && !hb.t.lt_spec(ha.t),
            _ => false,
        },
{
    // Every object of the one sequence is an object of the other.
    assert forall|i: int| 0 <= i < b.len() implies a.contains(#[trigger] b[i]) by {
        to_multiset_contains(b, b[i]);
        to_multiset_contains(a, b[i]);
    }
    assert forall|i: int| 0 <= i < a.len() implies b.contains(#[trigger] a[i]) by {
        to_multiset_contains(a, a[i]);
        to_multiset_contains(b, a[i]);
    }
    assert forall|i: int| 0 <= i < b.len() implies spec_consistent(*(#[trigger] b[i]), r, t_min) by {
        let j = choose|j: int| 0 <= j < a.len() && a[j] == b[i];
        assert(spec_consistent(*a[j], r, t_min));
    }
    // So the hit that either scan finds is the hit of an object of the
    // other sequence, where no object has a nearer one.
    lemma_scan_nearest(a, r, t_min, t_max);
    lemma_scan_nearest(b, r, t_min, t_max);
    match spec_scan(a, r, t_min, t_max) {
        Some(ha) => {
            let i = choose|i: int|
                0 <= i < a.len() && (#[trigger] a[i]).hit_spec(r, t_min, t_max) == Some(ha);
            let j = choose|j: int| 0 <= j < b.len() && b[j] == a[i];
            assert(b[j].hit_spec(r, t_min, t_max) == Some(ha));
        },
        None => {},
    }
    match spec_scan(b, r, t_min, t_max) {
        Some(hb) => {
            let i = choose|i: int|
                0 <= i < b.len() && (#[trigger] b[i]).hit_spec(r, t_min, t_max) == Some(hb);
            let j = choose|j: int| 0 <= j < a.len() && a[j] == b[i];
            assert(a[j].hit_spec(r, t_min, t_max) == Some(hb));
        },
        None => {},
    }
}

/// Whether no two hits among `objects` are at the same distance: of two
/// hits that differ, one is nearer than the other.
pub open spec fn spec_no_ties<T: RayTracingFloat>(
    objects: Seq<Rc<Primitive<T>>>,
    r: Ray<T>,
    t_min: T,
    t_max: T,
) -> bool {
    forall|i: int, j: int|
        0 <= i < objects.len() && 0 <= j < objects.len() ==> match (
            (#[trigger] objects[i]).hit_spec(r, t_min, t_max),
            (#[trigger] objects[j]).hit_spec(r, t_min, t_max),
        ) {
            (Some(a), Some(b)) => a == b || a.t.lt_spec(b.t) || b.t.lt_spec(a.t),
            _ => true,
        }
}

/// Where no two hits are at the same distance, the order of consistent
/// objects does not matter at all: two sequences that hold the same objects
/// find the same hit, with the same point, normal and material.
pub proof fn lemma_scan_order_free_without_ties<T: RayTracingFloat>(
    a: Seq<Rc<Primitive<T>>>,
    b: Seq<Rc<Primitive<T>>>,
    r: Ray<T>,
    t_min: T,
    t_max: T,
)
    requires
        a.to_multiset() == b.to_multiset(),
        spec_all_consistent(a, r, t_min),
        spec_no_ties(a, r, t_min, t_max),
    ensures
        spec_scan(a, r, t_min, t_max) == spec_scan(b, r, t_min, t_max),
{
    lemma_scan_order_free(a, b, r, t_min, t_max);
    lemma_scan_nearest(a, r, t_min, t_max);
    lemma_scan_nearest(b, r, t_min, t_max);
    match (spec_scan(a, r, t_min, t_max), spec_scan(b, r, t_min, t_max)) {
        (Some(ha), Some(hb)) => {
            // Both hits are hits of objects of `a`, and neither is nearer.
            let i = choose|i: int|
                0 <= i < a.len() && (#[trigger] a[i]).hit_spec(r, t_min, t_max) == Some(ha);
            let k = choose|k: int|
                0 <= k < b.len() && (#[trigger] b[k]).hit_spec(r, t_min, t_max) == Some(hb);
            to_multiset_contains(b, b[k]);
            to_multiset_contains(a, b[k]);
            let j = choose|j: int| 0 <= j < a.len() && a[j] == b[k];
            assert(a[j].hit_spec(r, t_min, t_max) == Some(hb));
        },
        _ => {},
    }
}

/// Among consistent objects a scan is consistent itself: the hit that it
/// finds lies strictly between `t_min` and the bound, is found again with
/// every bound above it, and nothing is found with a bound that is not
/// above it.
pub proof fn lemma_scan_cutoff<T: RayTracingFloat>(
    objects: Seq<Rc<Primitive<T>>>,
    r: Ray<T>,
    t_min: T,
    t1: T,
    t2: T,
)
    requires
        spec_all_consistent(objects, r, t_min),
    ensures
        match spec_scan(objects, r, t_min, t1) {
            Some(h) => {
                &&& t_min.lt_spec(h.t)
                &&& h.t.lt_spec(t1)
                &&& h.t.lt_spec(t2) ==> spec_scan(objects, r, t_min, t2) == Some(h)
                &&& !h.t.lt_spec(t2) ==> spec_scan(objects, r, t_min, t2) is None
            },
            None => true,
        },
    decreases objects.len(),
{
    lemma_scan_nearest(objects, r, t_min, t1);
    lemma_scan_nearest(objects, r, t_min, t2);
    match spec_scan(objects, r, t_min, t1) {
        Some(h) => {
            // The hit is the hit of an object, so it lies below the bound.
            let i = choose|i: int|
                0 <= i < objects.len() && (#[trigger] objects[i]).hit_spec(r, t_min, t1) == Some(h);
            assert(h.t.lt_spec(t1));
            if h.t.lt_spec(t2) {
                lemma_scan_found_again(objects, r, t_min, t1, t2);
            } else {
                match spec_scan(objects, r, t_min, t2) {
                    Some(h2) => {
                        // A hit below the second bound would put the first
                        // hit below that bound too.
                        let j = choose|j: int|
                            0 <= j < objects.len() && (#[trigger] objects[j]).hit_spec(r, t_min, t2)
                                == Some(h2);
                        assert(h2.t.lt_spec(t2));
                        T::lemma_le_lt(h.t, t1);
                        T::lemma_number(h.t, t1);
                        T::lemma_le_lt(h2.t, t2);
                        T::lemma_number(h2.t, t2);
                        T::lemma_total(h2.t, t1);
                        if h2.t.lt_spec(t1) {
                            T::lemma_total(h2.t, h.t);
                            lemma_le_lt_transitive(h.t, h2.t, t2);
                        } else {
                            lemma_lt_le_transitive(h.t, t1, h2.t);
                            T::lemma_lt_transitive(h.t, h2.t, t2);
                        }
                    },
                    None => {},
                }
            }
        },
        None => {},
    }
}

/// Among consistent objects, what a scan finds with one bound it finds
/// with every other bound above the hit.
pub proof fn lemma_scan_found_again<T: RayTracingFloat>(
    objects: Seq<Rc<Primitive<T>>>,
    r: Ray<T>,
    t_min: T,
    t1: T,
    t2: T,
)
    requires
        spec_all_consistent(objects, r, t_min),
    ensures
        match spec_scan(objects, r, t_min, t1) {
            Some(h) => h.t.lt_spec(t1) && (h.t.lt_spec(t2) ==> spec_scan(objects, r, t_min, t2)
                == Some(h)),
            None => true,
        },
    decreases objects.len(),
{
    if objects.len() > 0 {
        let rest = objects.drop_last();
        let o = objects.last();
        assert(spec_all_consistent(rest, r, t_min));
        lemma_scan_found_again(rest, r, t_min, t1, t2);
        lemma_scan_found_again(rest, r, t_min, t2, t1);
        let before1 = spec_scan(rest, r, t_min, t1);
        let before2 = spec_scan(rest, r, t_min, t2);
        // Where the last object is found with the first bound, it has to be
        // found with the second one: its hit lies below what the objects
        // before it leave of that bound.
        match o.hit_spec(r, t_min, spec_closest(before1, t1)) {
            Some(h) => {
                match before1 {
                    Some(hb1) => {
                        T::lemma_lt_transitive(h.t, hb1.t, t1);
                    },
                    None => {},
                }
                if h.t.lt_spec(t2) {
                    match before2 {
                        Some(hb2) => {
                            if !hb2.t.lt_spec(t1) {
                                T::lemma_le_lt(h.t, t1);
                                T::lemma_number(h.t, t1);
                                T::lemma_le_lt(hb2.t, t2);
                                T::lemma_number(hb2.t, t2);
                                T::lemma_total(hb2.t, t1);
                                lemma_lt_le_transitive(h.t, t1, hb2.t);
                            }
                        },
                        None => {},
                    }
                    assert(o.hit_spec(r, t_min, spec_closest(before2, t2)) == Some(h));
                }
            },
            None => {},
        }
    }
}

/// A list of consistent objects is consistent.
pub proof fn lemma_list_consistent<T: RayTracingFloat>(l: HittableList<T>, r: Ray<T>, t_min: T)
    requires
        spec_all_consistent(l.objects@, r, t_min),
    ensures
        spec_consistent(Primitive::List(l), r, t_min),
{
    let o = Primitive::List(l);
    assert forall|t1: T, t2: T|
        #![trigger o.hit_spec(r, t_min, t1), o.hit_spec(r, t_min, t2)]
        spec_cut_off(o, r, t_min, t1, t2) by {
        lemma_scan_cutoff(l.objects@, r, t_min, t1, t2);
    }
}

/// A moved primitive is consistent for a ray where the primitive itself is
/// consistent for the ray moved back.
pub proof fn lemma_translate_consistent<T: RayTracingFloat>(t: Translate<T>, r: Ray<T>, t_min: T)
    requires
        spec_consistent(
            *t.ptr,
            Ray { orig: r.orig.minus(t.offset), dir: r.dir, tm: r.tm },
            t_min,
        ),
    ensures
        spec_consistent(Primitive::Translate(t), r, t_min),
{
    let o = Primitive::Translate(t);
    let moved_r = Ray { orig: r.orig.minus(t.offset), dir: r.dir, tm: r.tm };
    assert forall|t1: T, t2: T|
        #![trigger o.hit_spec(r, t_min, t1), o.hit_spec(r, t_min, t2)]
        spec_cut_off(o, r, t_min, t1, t2) by {
        // The hits are those of the primitive, with the same parameter.
        assert(o.hit_spec(r, t_min, t1) is Some == t.ptr.hit_spec(moved_r, t_min, t1) is Some);
        assert(o.hit_spec(r, t_min, t2) is Some == t.ptr.hit_spec(moved_r, t_min, t2) is Some);
    }
}

/// A turned primitive is consistent for a ray where the primitive itself
/// is consistent for the ray turned back.
pub proof fn lemma_rotate_y_consistent<T: RayTracingFloat>(t: Rotate_Y<T>, r: Ray<T>, t_min: T)
    requires
        spec_consistent(
            *t.ptr,
            Ray {
                orig: spec_rotate_back(r.orig, t.sin_theta, t.cos_theta),
                dir: spec_rotate_back(r.dir, t.sin_theta, t.cos_theta),
                tm: r.tm,
            },
            t_min,
        ),
    ensures
        spec_consistent(Primitive::RotateY(t), r, t_min),
{
    let o = Primitive::RotateY(t);
    let rotated_r = Ray {
        orig: spec_rotate_back(r.orig, t.sin_theta, t.cos_theta),
        dir: spec_rotate_back(r.dir, t.sin_theta, t.cos_theta),
        tm: r.tm,
    };
    assert forall|t1: T, t2: T|
        #![trigger o.hit_spec(r, t_min, t1), o.hit_spec(r, t_min, t2)]
        spec_cut_off(o, r, t_min, t1, t2) by {
        // The hits are those of the primitive, with the same parameter.
        assert(o.hit_spec(r, t_min, t1) is Some == t.ptr.hit_spec(rotated_r, t_min, t1) is Some);
        assert(o.hit_spec(r, t_min, t2) is Some == t.ptr.hit_spec(rotated_r, t_min, t2) is Some);
    }
}

} // verus!
