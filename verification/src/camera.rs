//! The camera: from a place on the image to a ray into the scene.
use crate::ray::Point;
use crate::ray::Ray;
use crate::ray::Vector;
use crate::scalar::RayTracingFloat;
use crate::vec3::cross;
use crate::vec3::spec_cross;
use vstd::prelude::*;

verus! {

/// A thin-lens camera with a shutter that is open from `time0` to `time1`.
#[derive(Clone, Copy)]
pub struct Camera<T: RayTracingFloat> {
    pub origin: Point<T>,
    pub lower_left_corner: Point<T>,
    pub horizontal: Vector<T>,
    pub vertical: Vector<T>,
    pub u: Vector<T>,
    pub v: Vector<T>,
    pub w: Vector<T>,
    pub lens_radius: T,
    pub time0: T,
    pub time1: T,
}

/// The camera at `lookfrom` that looks at `lookat` with `vup` upwards.
///
/// The viewport is `2 * tan(vfov / 2)` high, `vfov` being in degrees, and
/// `aspect_ratio` times as wide; it lies `focus_dist` in front of the
/// camera, across the unit vectors `u` (to the right) and `v` (upwards).
/// The lens has the radius `aperture / 2`.
pub open spec fn spec_camera<T: RayTracingFloat>(
    lookfrom: Point<T>,
    lookat: Point<T>,
    vup: Vector<T>,
    vfov: T,
    aspect_ratio: T,
    aperture: T,
    focus_dist: T,
    time0: T,
    time1: T,
) -> Camera<T> {
    let two = T::from_int_spec(2);
    let theta = vfov.mul_spec(T::pi_spec().div_spec(T::from_int_spec(180)));
    let h = theta.div_spec(two).tan_spec();
    let viewport_height = two.mul_spec(h);
    let viewport_width = aspect_ratio.mul_spec(viewport_height);
    let w = lookfrom.minus(lookat).spec_unit_vector();
    let u = spec_cross(vup, w).spec_unit_vector();
    let v = spec_cross(w, u);
    let horizontal = u.scaled(focus_dist).scaled(viewport_width);
    let vertical = v.scaled(focus_dist).scaled(viewport_height);
    Camera {
        origin: lookfrom,
        lower_left_corner: lookfrom.minus(horizontal.shrunk(two)).minus(vertical.shrunk(two)).minus(
            w.scaled(focus_dist),
        ),
        horizontal: horizontal,
        vertical: vertical,
        u: u,
        v: v,
        w: w,
        lens_radius: aperture.div_spec(two),
        time0: time0,
        time1: time1,
    }
}

impl<T: RayTracingFloat> Camera<T> {
    /// The ray through the place `(s, t)` of the viewport, from the point
    /// of the lens that `lens` picks. `lens` is a point of the unit disk
    /// and `time` a moment between `time0` and `time1`: the caller draws both.
    pub open spec fn spec_get_ray(self, s: T, t: T, lens: Vector<T>, time: T) -> Ray<T> {
        let rd = lens.scaled(self.lens_radius);
        let offset = self.u.scaled(rd.x).plus(self.v.scaled(rd.y));
        Ray {
            orig: self.origin.plus(offset),
            dir: self.lower_left_corner.plus(self.horizontal.scaled(s)).plus(
                self.vertical.scaled(t),
            ).minus(self.origin).minus(offset),
            tm: time,
        }
    }

    pub fn new(
        lookfrom: &Point<T>,
        lookat: &Point<T>,
        vup: &Vector<T>,
        vfov: &T,
        aspect_ratio: &T,
        aperture: &T,
        focus_dist: &T,
        time0: &T,
        time1: &T,
    ) -> (cam: Self)
        ensures
            cam == spec_camera(
                *lookfrom,
                *lookat,
                *vup,
                *vfov,
                *aspect_ratio,
                *aperture,
                *focus_dist,
                *time0,
                *time1,
            ),
    {
        let two = T::from_int(2);
        let theta = vfov.mul(T::pi().div(T::from_int(180)));
        let h = theta.div(two).tan();
        let viewport_height = two.mul(h);
        let viewport_width = aspect_ratio.mul(viewport_height);
        let w = lookfrom.minus(*lookat).unit_vector();
        let u = cross(vup, &w).unit_vector();
        let v = cross(&w, &u);
        let origin = *lookfrom;
        let horizontal = u.scaled(*focus_dist).scaled(viewport_width);
        let vertical = v.scaled(*focus_dist).scaled(viewport_height);
        let lower_left_corner = origin.minus(horizontal.shrunk(two)).minus(
            vertical.shrunk(two),
        ).minus(w.scaled(*focus_dist));
        Camera {
            origin: origin,
            lower_left_corner: lower_left_corner,
            horizontal: horizontal,
            vertical: vertical,
            u: u,
            v: v,
            w: w,
            lens_radius: aperture.div(two),
            time0: *time0,
            time1: *time1,
        }
    }

    pub fn get_ray(&self, s: &T, t: &T, lens: &Vector<T>, time: &T) -> (r: Ray<T>)
        ensures
            r == self.spec_get_ray(*s, *t, *lens, *time),
    {
        let rd = lens.scaled(self.lens_radius);
        let offset = self.u.scaled(rd.x).plus(self.v.scaled(rd.y));
        Ray::new(
            self.origin.plus(offset),
            self.lower_left_corner.plus(self.horizontal.scaled(*s)).plus(
                self.vertical.scaled(*t),
            ).minus(self.origin).minus(offset),
            *time,
        )
    }
}

} // verus!
