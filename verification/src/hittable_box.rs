//! Axis-aligned rectangles, and the box made of six of them.
use crate::aabb::AxisAlignedBoundingBoxes;
use crate::hittable::in_range;
use crate::hittable::lemma_list_consistent;
use crate::hittable::spec_consistent;
use crate::hittable::spec_cut_off;
use crate::hittable::spec_in_range;
use crate::hittable::spec_record;
use crate::hittable::HitRecord;
use crate::hittable::Hittable;
use crate::hittable::HittableList;
use crate::hittable::Primitive;
use crate::material::MaterialKind;
use crate::ray::Point;
use crate::ray::Ray;
use crate::ray::Vector;
use crate::scalar::RayTracingFloat;
use crate::utils::ratio;
use crate::utils::spec_ratio;
use crate::vec3::Vec3;
use std::rc::Rc;
use vstd::prelude::*;

verus! {

/// The rectangle `[x0, x1] x [y0, y1]` in the plane `z = k`.
#[allow(non_camel_case_types)]
pub struct XY_Rect<T: RayTracingFloat> {
    pub mp: Rc<MaterialKind<T>>,
    pub x0: T,
    pub x1: T,
    pub y0: T,
    pub y1: T,
    pub k: T,
}

/// The rectangle `[x0, x1] x [z0, z1]` in the plane `y = k`.
#[allow(non_camel_case_types)]
pub struct XZ_Rect<T: RayTracingFloat> {
    pub mp: Rc<MaterialKind<T>>,
    pub x0: T,
    pub x1: T,
    pub z0: T,
    pub z1: T,
    pub k: T,
}

/// The rectangle `[y0, y1] x [z0, z1]` in the plane `x = k`.
#[allow(non_camel_case_types)]
pub struct YZ_Rect<T: RayTracingFloat> {
    pub mp: Rc<MaterialKind<T>>,
    pub y0: T,
    pub y1: T,
    pub z0: T,
    pub z1: T,
    pub k: T,
}

/// The cuboid between two opposite corners, as its six faces.
pub struct Box<T: RayTracingFloat> {
    pub box_min: Point<T>,
    pub box_max: Point<T>,
    pub sides: HittableList<T>,
}

/// A rectangle in a plane across one axis: the plane is `axis = k`, and the
/// rectangle spans `[a0, a1]` on `a_axis` and `[b0, b1]` on `b_axis`.
pub struct Plane<T: RayTracingFloat> {
    pub axis: usize,
    pub a_axis: usize,
    pub b_axis: usize,
    pub a0: T,
    pub a1: T,
    pub b0: T,
    pub b1: T,
    pub k: T,
}

/// The vector of length one along `axis`.
pub open spec fn spec_unit_axis<T: RayTracingFloat>(axis: int) -> Vector<T> {
    Vec3 {
        x: T::from_int_spec(if axis == 0 { 1 } else { 0 }),
        y: T::from_int_spec(if axis == 1 { 1 } else { 0 }),
        z: T::from_int_spec(if axis != 0 && axis != 1 { 1 } else { 0 }),
    }
}

/// How far a flat box reaches to each side of its plane: `1 / 10_000`.
pub open spec fn spec_padding<T: RayTracingFloat>() -> T {
    spec_ratio::<T>(1, 10_000)
}

impl<T: RayTracingFloat> Plane<T> {
    pub open spec fn wf(self) -> bool {
        self.axis < 3 && self.a_axis < 3 && self.b_axis < 3
    }

    /// The parameter at which `r` crosses the plane: `(k - origin) / direction`
    /// on the plane's axis.
    pub open spec fn spec_crossing(self, r: Ray<T>) -> T {
        self.k.sub_spec(r.orig.axis(self.axis as int)).div_spec(r.dir.axis(self.axis as int))
    }

    /// The hit of `r` on the rectangle: the ray crosses the plane at a
    /// parameter strictly between `t_min` and `t_max`, and does so at a
    /// point within the extents. The outward normal is the unit vector of
    /// the plane's axis; `u` and `v` are the shares of the two extents.
    pub open spec fn spec_hit(self, mat: Rc<MaterialKind<T>>, r: Ray<T>, t_min: T, t_max: T) -> Option<
        HitRecord<T>,
    > {
        let t = self.spec_crossing(r);
        let a = r.orig.axis(self.a_axis as int).add_spec(
            t.mul_spec(r.dir.axis(self.a_axis as int)),
        );
        let b = r.orig.axis(self.b_axis as int).add_spec(
            t.mul_spec(r.dir.axis(self.b_axis as int)),
        );
        if !spec_in_range(t, t_min, t_max) {
            None
        } else if a.lt_spec(self.a0) || self.a1.lt_spec(a) || b.lt_spec(self.b0) || self.b1.lt_spec(
            b,
        ) {
            None
        } else {
            Some(
                spec_record(
                    r,
                    t,
                    spec_unit_axis(self.axis as int),
                    a.sub_spec(self.a0).div_spec(self.a1.sub_spec(self.a0)),
                    b.sub_spec(self.b0).div_spec(self.b1.sub_spec(self.b0)),
                    mat,
                ),
            )
        }
    }

    fn hit(&self, mat: &Rc<MaterialKind<T>>, r: &Ray<T>, t_min: &T, t_max: &T) -> (rec: Option<
        HitRecord<T>,
    >)
        requires
            self.wf(),
        ensures
            rec == self.spec_hit(*mat, *r, *t_min, *t_max),
    {
        let t = self.k.sub(r.orig.get(self.axis)).div(r.dir.get(self.axis));
        if !in_range(&t, t_min, t_max) {
            return None;
        }
        let a = r.orig.get(self.a_axis).add(t.mul(r.dir.get(self.a_axis)));
        let b = r.orig.get(self.b_axis).add(t.mul(r.dir.get(self.b_axis)));
        if a.lt(&self.a0) || self.a1.lt(&a) || b.lt(&self.b0) || self.b1.lt(&b) {
            return None;
        }
        let zero = T::from_int(0);
        let one = T::from_int(1);
        let outward_normal = if self.axis == 0 {
            Vec3::new(one, zero, zero)
        } else if self.axis == 1 {
            Vec3::new(zero, one, zero)
        } else {
            Vec3::new(zero, zero, one)
        };
        let u = a.sub(self.a0).div(self.a1.sub(self.a0));
        let v = b.sub(self.b0).div(self.b1.sub(self.b0));
        Some(HitRecord::new(r, t, &outward_normal, u, v, mat.clone()))
    }
}

impl<T: RayTracingFloat> XY_Rect<T> {
    pub open spec fn plane(self) -> Plane<T> {
        Plane {
            axis: 2,
            a_axis: 0,
            b_axis: 1,
            a0: self.x0,
            a1: self.x1,
            b0: self.y0,
            b1: self.y1,
            k: self.k,
        }
    }

    pub fn new(x0: T, x1: T, y0: T, y1: T, k: T, mat: Rc<MaterialKind<T>>) -> (r: Self)
        ensures
            r == (XY_Rect { mp: mat, x0: x0, x1: x1, y0: y0, y1: y1, k: k }),
    {
        XY_Rect { mp: mat, x0: x0, x1: x1, y0: y0, y1: y1, k: k }
    }
}

impl<T: RayTracingFloat> Hittable<T> for XY_Rect<T> {
    open spec fn hit_spec(&self, r: Ray<T>, t_min: T, t_max: T) -> Option<HitRecord<T>> {
        self.plane().spec_hit(self.mp, r, t_min, t_max)
    }

    /// The rectangle, padded on both sides of its plane.
    open spec fn bounding_box_spec(&self, time0: T, time1: T) -> Option<AxisAlignedBoundingBoxes<T>> {
        Some(
            AxisAlignedBoundingBoxes {
                minimum: Vec3 { x: self.x0, y: self.y0, z: self.k.sub_spec(spec_padding()) },
                maximum: Vec3 { x: self.x1, y: self.y1, z: self.k.add_spec(spec_padding()) },
            },
        )
    }

    fn hit(&self, r: &Ray<T>, t_min: &T, t_max: &T) -> (rec: Option<HitRecord<T>>) {
        let plane = Plane {
            axis: 2,
            a_axis: 0,
            b_axis: 1,
            a0: self.x0,
            a1: self.x1,
            b0: self.y0,
            b1: self.y1,
            k: self.k,
        };
        plane.hit(&self.mp, r, t_min, t_max)
    }

    fn bounding_box(&self, time0: &T, time1: &T) -> (b: Option<AxisAlignedBoundingBoxes<T>>) {
        let pad: T = ratio(1, 10_000);
        Some(
            AxisAlignedBoundingBoxes::new(
                Vec3::new(self.x0, self.y0, self.k.sub(pad)),
                Vec3::new(self.x1, self.y1, self.k.add(pad)),
            ),
        )
    }
}

impl<T: RayTracingFloat> XZ_Rect<T> {
    pub open spec fn plane(self) -> Plane<T> {
        Plane {
            axis: 1,
            a_axis: 0,
            b_axis: 2,
            a0: self.x0,
            a1: self.x1,
            b0: self.z0,
            b1: self.z1,
            k: self.k,
        }
    }

    pub fn new(x0: T, x1: T, z0: T, z1: T, k: T, mat: Rc<MaterialKind<T>>) -> (r: Self)
        ensures
            r == (XZ_Rect { mp: mat, x0: x0, x1: x1, z0: z0, z1: z1, k: k }),
    {
        XZ_Rect { mp: mat, x0: x0, x1: x1, z0: z0, z1: z1, k: k }
    }
}

impl<T: RayTracingFloat> Hittable<T> for XZ_Rect<T> {
    open spec fn hit_spec(&self, r: Ray<T>, t_min: T, t_max: T) -> Option<HitRecord<T>> {
        self.plane().spec_hit(self.mp, r, t_min, t_max)
    }

    /// The rectangle, padded on both sides of its plane.
    open spec fn bounding_box_spec(&self, time0: T, time1: T) -> Option<AxisAlignedBoundingBoxes<T>> {
        Some(
            AxisAlignedBoundingBoxes {
                minimum: Vec3 { x: self.x0, y: self.k.sub_spec(spec_padding()), z: self.z0 },
                maximum: Vec3 { x: self.x1, y: self.k.add_spec(spec_padding()), z: self.z1 },
            },
        )
    }

    fn hit(&self, r: &Ray<T>, t_min: &T, t_max: &T) -> (rec: Option<HitRecord<T>>) {
        let plane = Plane {
            axis: 1,
            a_axis: 0,
            b_axis: 2,
            a0: self.x0,
            a1: self.x1,
            b0: self.z0,
            b1: self.z1,
            k: self.k,
        };
        plane.hit(&self.mp, r, t_min, t_max)
    }

    fn bounding_box(&self, time0: &T, time1: &T) -> (b: Option<AxisAlignedBoundingBoxes<T>>) {
        let pad: T = ratio(1, 10_000);
        Some(
            AxisAlignedBoundingBoxes::new(
                Vec3::new(self.x0, self.k.sub(pad), self.z0),
                Vec3::new(self.x1, self.k.add(pad), self.z1),
            ),
        )
    }
}

impl<T: RayTracingFloat> YZ_Rect<T> {
    pub open spec fn plane(self) -> Plane<T> {
        Plane {
            axis: 0,
            a_axis: 1,
            b_axis: 2,
            a0: self.y0,
            a1: self.y1,
            b0: self.z0,
            b1: self.z1,
            k: self.k,
        }
    }

    pub fn new(y0: T, y1: T, z0: T, z1: T, k: T, mat: Rc<MaterialKind<T>>) -> (r: Self)
        ensures
            r == (YZ_Rect { mp: mat, y0: y0, y1: y1, z0: z0, z1: z1, k: k }),
    {
        YZ_Rect { mp: mat, y0: y0, y1: y1, z0: z0, z1: z1, k: k }
    }
}

impl<T: RayTracingFloat> Hittable<T> for YZ_Rect<T> {
    open spec fn hit_spec(&self, r: Ray<T>, t_min: T, t_max: T) -> Option<HitRecord<T>> {
        self.plane().spec_hit(self.mp, r, t_min, t_max)
    }

    /// The rectangle, padded on both sides of its plane.
    open spec fn bounding_box_spec(&self, time0: T, time1: T) -> Option<AxisAlignedBoundingBoxes<T>> {
        Some(
            AxisAlignedBoundingBoxes {
                minimum: Vec3 { x: self.k.sub_spec(spec_padding()), y: self.y0, z: self.z0 },
                maximum: Vec3 { x: self.k.add_spec(spec_padding()), y: self.y1, z: self.z1 },
            },
        )
    }

    fn hit(&self, r: &Ray<T>, t_min: &T, t_max: &T) -> (rec: Option<HitRecord<T>>) {
        let plane = Plane {
            axis: 0,
            a_axis: 1,
            b_axis: 2,
            a0: self.y0,
            a1: self.y1,
            b0: self.z0,
            b1: self.z1,
            k: self.k,
        };
        plane.hit(&self.mp, r, t_min, t_max)
    }

    fn bounding_box(&self, time0: &T, time1: &T) -> (b: Option<AxisAlignedBoundingBoxes<T>>) {
        let pad: T = ratio(1, 10_000);
        Some(
            AxisAlignedBoundingBoxes::new(
                Vec3::new(self.k.sub(pad), self.y0, self.z0),
                Vec3::new(self.k.add(pad), self.y1, self.z1),
            ),
        )
    }
}

/// The six faces of the cuboid between `p0` and `p1`, all of the material
/// `mat`: for each axis the face at `p1` and then the face at `p0`, the
/// axes in the order `z`, `y`, `x`.
pub open spec fn spec_box_sides<T: RayTracingFloat>(
    p0: Point<T>,
    p1: Point<T>,
    mat: Rc<MaterialKind<T>>,
) -> Seq<Primitive<T>> {
    seq![
        Primitive::XYRect(XY_Rect { mp: mat, x0: p0.x, x1: p1.x, y0: p0.y, y1: p1.y, k: p1.z }),
        Primitive::XYRect(XY_Rect { mp: mat, x0: p0.x, x1: p1.x, y0: p0.y, y1: p1.y, k: p0.z }),
        Primitive::XZRect(XZ_Rect { mp: mat, x0: p0.x, x1: p1.x, z0: p0.z, z1: p1.z, k: p1.y }),
        Primitive::XZRect(XZ_Rect { mp: mat, x0: p0.x, x1: p1.x, z0: p0.z, z1: p1.z, k: p0.y }),
        Primitive::YZRect(YZ_Rect { mp: mat, y0: p0.y, y1: p1.y, z0: p0.z, z1: p1.z, k: p1.x }),
        Primitive::YZRect(YZ_Rect { mp: mat, y0: p0.y, y1: p1.y, z0: p0.z, z1: p1.z, k: p0.x }),
    ]
}

impl<T: RayTracingFloat> Box<T> {
    /// Whether every side is a rectangle.
    pub open spec fn wf(self) -> bool {
        forall|i: int|
            0 <= i < self.sides.objects@.len() ==> {
                let side = *(#[trigger] self.sides.objects@[i]);
                side is XYRect || side is XZRect || side is YZRect
            }
    }

    pub fn new(p0: Point<T>, p1: Point<T>, ptr: Rc<MaterialKind<T>>) -> (r: Self)
        ensures
            r.wf(),
            r.box_min == p0,
            r.box_max == p1,
            r.sides.objects@.len() == 6,
            forall|i: int| 0 <= i < 6 ==> *(#[trigger] r.sides.objects@[i]) == spec_box_sides(p0, p1, ptr)[i],
    {
        let mut sides = HittableList::new_empty();
        sides.add(
            Rc::new(Primitive::XYRect(XY_Rect::new(p0.x, p1.x, p0.y, p1.y, p1.z, ptr.clone()))),
        );
        sides.add(
            Rc::new(Primitive::XYRect(XY_Rect::new(p0.x, p1.x, p0.y, p1.y, p0.z, ptr.clone()))),
        );
        sides.add(
            Rc::new(Primitive::XZRect(XZ_Rect::new(p0.x, p1.x, p0.z, p1.z, p1.y, ptr.clone()))),
        );
        sides.add(
            Rc::new(Primitive::XZRect(XZ_Rect::new(p0.x, p1.x, p0.z, p1.z, p0.y, ptr.clone()))),
        );
        sides.add(
            Rc::new(Primitive::YZRect(YZ_Rect::new(p0.y, p1.y, p0.z, p1.z, p1.x, ptr.clone()))),
        );
        sides.add(Rc::new(Primitive::YZRect(YZ_Rect::new(p0.y, p1.y, p0.z, p1.z, p0.x, ptr))));
        Box { box_min: p0, box_max: p1, sides: sides }
    }
}

impl<T: RayTracingFloat> Hittable<T> for Box<T> {
    /// The nearest hit on one of the six faces.
    open spec fn hit_spec(&self, r: Ray<T>, t_min: T, t_max: T) -> Option<HitRecord<T>>
        decreases self, 2int,
    {
        self.sides.hit_spec(r, t_min, t_max)
    }

    /// The two corners themselves.
    open spec fn bounding_box_spec(&self, time0: T, time1: T) -> Option<AxisAlignedBoundingBoxes<T>> {
        Some(AxisAlignedBoundingBoxes { minimum: self.box_min, maximum: self.box_max })
    }

    fn hit(&self, r: &Ray<T>, t_min: &T, t_max: &T) -> (rec: Option<HitRecord<T>>)
        decreases self, 2int,
    {
        self.sides.hit(r, t_min, t_max)
    }

    fn bounding_box(&self, time0: &T, time1: &T) -> (b: Option<AxisAlignedBoundingBoxes<T>>) {
        Some(AxisAlignedBoundingBoxes::new(self.box_min, self.box_max))
    }
}

/// A rectangle is consistent for every ray: it has one crossing, which does
/// not depend on the upper bound.
pub proof fn lemma_xy_rect_consistent<T: RayTracingFloat>(q: XY_Rect<T>, r: Ray<T>, t_min: T)
    ensures
        spec_consistent(Primitive::XYRect(q), r, t_min),
{
}

/// A rectangle is consistent for every ray.
pub proof fn lemma_xz_rect_consistent<T: RayTracingFloat>(q: XZ_Rect<T>, r: Ray<T>, t_min: T)
    ensures
        spec_consistent(Primitive::XZRect(q), r, t_min),
{
}

/// A rectangle is consistent for every ray.
pub proof fn lemma_yz_rect_consistent<T: RayTracingFloat>(q: YZ_Rect<T>, r: Ray<T>, t_min: T)
    ensures
        spec_consistent(Primitive::YZRect(q), r, t_min),
{
}

/// A box of rectangles is consistent for every ray.
pub proof fn lemma_box_consistent<T: RayTracingFloat>(b: Box<T>, r: Ray<T>, t_min: T)
    requires
        b.wf(),
    ensures
        spec_consistent(Primitive::Box(b), r, t_min),
{
    let sides = b.sides.objects@;
    assert forall|i: int| 0 <= i < sides.len() implies spec_consistent(
        *(#[trigger] sides[i]),
        r,
        t_min,
    ) by {
        match *sides[i] {
            Primitive::XYRect(q) => lemma_xy_rect_consistent(q, r, t_min),
            Primitive::XZRect(q) => lemma_xz_rect_consistent(q, r, t_min),
            Primitive::YZRect(q) => lemma_yz_rect_consistent(q, r, t_min),
            _ => {},
        }
    }
    lemma_list_consistent(b.sides, r, t_min);
    let o = Primitive::Box(b);
    let l = Primitive::List(b.sides);
    assert forall|t1: T, t2: T|
        #![trigger o.hit_spec(r, t_min, t1), o.hit_spec(r, t_min, t2)]
        spec_cut_off(o, r, t_min, t1, t2) by {
        assert(o.hit_spec(r, t_min, t1) == l.hit_spec(r, t_min, t1));
        assert(o.hit_spec(r, t_min, t2) == l.hit_spec(r, t_min, t2));
    }
}

} // verus!
