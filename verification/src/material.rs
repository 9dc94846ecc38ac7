//! Materials: what becomes of a ray at a surface.
use crate::color::Color;
use crate::hittable::HitRecord;
use crate::ray;
use crate::ray::Point;
use crate::ray::Ray;
use crate::ray::Vector;
use crate::scalar::RayTracingFloat;
use crate::texture::SolidColor;
use crate::texture::Texture;
use crate::texture::TextureKind;
use crate::utils::clamp;
use crate::utils::min;
use crate::utils::spec_clamp;
use crate::utils::spec_min;
use crate::vec3::dot;
use crate::vec3::spec_dot;
use crate::vec3::Vec3;
use std::rc::Rc;
use vstd::prelude::*;

verus! {

/// The random numbers that one scattering may use: a direction drawn
/// uniformly from the unit sphere (see [`Vec3::random_unit_vector`]), a point
/// drawn uniformly from the unit ball (see [`Vec3::random_in_unit_sphere`])
/// and a number drawn uniformly from `[0, 1)`.
///
/// The library draws nothing itself. Whoever traces a ray hands in one
/// sample for each bounce, and the result is a function of the samples.
#[derive(Clone, Copy)]
pub struct ScatterSample<T: RayTracingFloat> {
    pub unit_vector: Vector<T>,
    pub sphere_point: Vector<T>,
    pub unit: T,
}

/// How a surface treats light.
pub trait Material<T: RayTracingFloat> {
    /// The attenuation and the scattered ray for a ray `r_in` that hit as
    /// `rec` says, or `None` where the ray is absorbed.
    spec fn scatter_spec(&self, r_in: Ray<T>, rec: HitRecord<T>, sample: ScatterSample<T>) -> Option<
        (Color<T>, Ray<T>),
    >;

    /// The light that the surface gives off at `p`.
    spec fn emitted_spec(&self, u: T, v: T, p: Point<T>) -> Color<T>;

    fn scatter(&self, r_in: &Ray<T>, rec: &HitRecord<T>, sample: &ScatterSample<T>) -> (r: Option<
        (Color<T>, Ray<T>),
    >)
        ensures
            r == self.scatter_spec(*r_in, *rec, *sample),
    ;

    fn emitted(&self, u: &T, v: &T, p: &Point<T>) -> (c: Color<T>)
        ensures
            c == self.emitted_spec(*u, *v, *p),
    ;
}

/// A diffuse surface.
pub struct Lambertian<T: RayTracingFloat> {
    pub albedo: Rc<TextureKind<T>>,
}

/// A mirror, blurred by `fuzz`.
pub struct Metal<T: RayTracingFloat> {
    pub albedo: Color<T>,
    pub fuzz: T,
}

/// A clear solid with the refractive index `ir`.
pub struct Dielectric<T: RayTracingFloat> {
    pub ir: T,
}

/// A surface that gives off light and scatters none.
pub struct DiffuseLight<T: RayTracingFloat> {
    pub emit: Rc<TextureKind<T>>,
}

/// The materials of this crate.
pub enum MaterialKind<T: RayTracingFloat> {
    Lambertian(Lambertian<T>),
    Metal(Metal<T>),
    Dielectric(Dielectric<T>),
    DiffuseLight(DiffuseLight<T>),
}

/// The direction in which a diffuse surface scatters: the normal plus the
/// direction of the sample, or the normal alone where that sum is near zero.
pub open spec fn spec_diffuse_direction<T: RayTracingFloat>(
    normal: Vector<T>,
    sample: ScatterSample<T>,
) -> Vector<T> {
    let d = normal.plus(sample.unit_vector);
    if d.spec_near_zero() {
        normal
    } else {
        d
    }
}

/// The direction in which a metal scatters: the mirrored unit direction,
/// moved by `fuzz` times the sample where `fuzz` is positive.
pub open spec fn spec_metal_direction<T: RayTracingFloat>(
    fuzz: T,
    direction: Vector<T>,
    normal: Vector<T>,
    sample: ScatterSample<T>,
) -> Vector<T> {
    let reflected = ray::spec_reflect(direction.spec_unit_vector(), normal);
    if T::from_int_spec(0).lt_spec(fuzz) {
        reflected.plus(sample.sphere_point.scaled(fuzz))
    } else {
        reflected
    }
}

/// Schlick's approximation of the share of light that a clear surface
/// reflects: `r0 + (1 - r0) * (1 - cosine)^5` with
/// `r0 = ((1 - ref_idx) / (1 + ref_idx))^2`.
pub open spec fn spec_reflectance<T: RayTracingFloat>(cosine: T, ref_idx: T) -> T {
    let one = T::from_int_spec(1);
    let q = one.sub_spec(ref_idx).div_spec(one.add_spec(ref_idx));
    let r0 = q.mul_spec(q);
    let x = one.sub_spec(cosine);
    let x2 = x.mul_spec(x);
    r0.add_spec(one.sub_spec(r0).mul_spec(x2.mul_spec(x2).mul_spec(x)))
}

/// The ratio of the refractive indices that a ray meets: `1 / ir` on the
/// way in, `ir` on the way out.
pub open spec fn spec_refraction_ratio<T: RayTracingFloat>(ir: T, front_face: bool) -> T {
    if front_face {
        T::from_int_spec(1).div_spec(ir)
    } else {
        ir
    }
}

/// The cosine of the angle between the unit direction and the normal, at most one.
pub open spec fn spec_cos_theta<T: RayTracingFloat>(direction: Vector<T>, normal: Vector<T>) -> T {
    spec_min(spec_dot(direction.spec_unit_vector().negated(), normal), T::from_int_spec(1))
}

/// The sine that belongs to [`spec_cos_theta`].
pub open spec fn spec_sin_theta<T: RayTracingFloat>(direction: Vector<T>, normal: Vector<T>) -> T {
    let c = spec_cos_theta(direction, normal);
    T::from_int_spec(1).sub_spec(c.mul_spec(c)).sqrt_spec()
}

/// Whether Snell's law has no solution: the ratio times the sine is above one.
pub open spec fn spec_total_internal_reflection<T: RayTracingFloat>(
    ir: T,
    direction: Vector<T>,
    rec: HitRecord<T>,
) -> bool {
    T::from_int_spec(1).lt_spec(
        spec_refraction_ratio(ir, rec.front_face).mul_spec(spec_sin_theta(direction, rec.normal)),
    )
}

/// The direction in which a clear solid sends a ray on: mirrored where the
/// ray cannot be refracted or the sample is below the reflectance, else
/// refracted.
pub open spec fn spec_dielectric_direction<T: RayTracingFloat>(
    ir: T,
    direction: Vector<T>,
    rec: HitRecord<T>,
    sample: ScatterSample<T>,
) -> Vector<T> {
    let ratio = spec_refraction_ratio(ir, rec.front_face);
    let unit_direction = direction.spec_unit_vector();
    if spec_total_internal_reflection(ir, direction, rec) || sample.unit.lt_spec(
        spec_reflectance(spec_cos_theta(direction, rec.normal), ratio),
    ) {
        ray::spec_reflect(unit_direction, rec.normal)
    } else {
        ray::spec_refract(unit_direction, rec.normal, ratio)
    }
}

impl<T: RayTracingFloat> Lambertian<T> {
    /// A diffuse surface of one colour.
    pub fn new(color: Color<T>) -> (r: Self)
        ensures
            *r.albedo == TextureKind::Solid(SolidColor { color_value: color }),
    {
        Lambertian { albedo: Rc::new(TextureKind::Solid(SolidColor::new(color))) }
    }

    pub fn new_with_texture(a: Rc<TextureKind<T>>) -> (r: Self)
        ensures
            r.albedo == a,
    {
        Lambertian { albedo: a }
    }
}

impl<T: RayTracingFloat> Material<T> for Lambertian<T> {
    /// Never absorbs: the ray leaves the hit point in the diffuse
    /// direction, at the time of the incoming ray, tinted by the texture.
    open spec fn scatter_spec(&self, r_in: Ray<T>, rec: HitRecord<T>, sample: ScatterSample<T>) -> Option<
        (Color<T>, Ray<T>),
    > {
        Some(
            (
                self.albedo.value_spec(rec.u, rec.v, rec.p),
                Ray { orig: rec.p, dir: spec_diffuse_direction(rec.normal, sample), tm: r_in.tm },
            ),
        )
    }

    open spec fn emitted_spec(&self, u: T, v: T, p: Point<T>) -> Color<T> {
        ray::spec_zero()
    }

    fn scatter(&self, r_in: &Ray<T>, rec: &HitRecord<T>, sample: &ScatterSample<T>) -> (r: Option<
        (Color<T>, Ray<T>),
    >) {
        let mut scatter_direction = rec.normal.plus(sample.unit_vector);
        if scatter_direction.near_zero() {
            scatter_direction = rec.normal;
        }
        let scattered = Ray::new(rec.p, scatter_direction, r_in.tm);
        let attenuation = self.albedo.value(&rec.u, &rec.v, &rec.p);
        Some((attenuation, scattered))
    }

    fn emitted(&self, u: &T, v: &T, p: &Point<T>) -> (c: Color<T>) {
        Vec3::zero()
    }
}

impl<T: RayTracingFloat> Metal<T> {
    /// A metal of the given colour; `f` is held to `[0, 1]`.
    pub fn new(color: Color<T>, f: T) -> (r: Self)
        ensures
            r.albedo == color,
            r.fuzz == spec_clamp(f, T::from_int_spec(0), T::from_int_spec(1)),
    {
        Metal { albedo: color, fuzz: clamp(f, T::from_int(0), T::from_int(1)) }
    }
}

impl<T: RayTracingFloat> Material<T> for Metal<T> {
    /// The mirrored ray, where it still leaves the surface: its product
    /// with the normal is positive. Otherwise the ray is absorbed.
    open spec fn scatter_spec(&self, r_in: Ray<T>, rec: HitRecord<T>, sample: ScatterSample<T>) -> Option<
        (Color<T>, Ray<T>),
    > {
        let d = spec_metal_direction(self.fuzz, r_in.dir, rec.normal, sample);
        if T::from_int_spec(0).lt_spec(spec_dot(d, rec.normal)) {
            Some((self.albedo, Ray { orig: rec.p, dir: d, tm: r_in.tm }))
        } else {
            None
        }
    }

    open spec fn emitted_spec(&self, u: T, v: T, p: Point<T>) -> Color<T> {
        ray::spec_zero()
    }

    fn scatter(&self, r_in: &Ray<T>, rec: &HitRecord<T>, sample: &ScatterSample<T>) -> (r: Option<
        (Color<T>, Ray<T>),
    >) {
        let mut reflected = ray::reflect(&r_in.dir.unit_vector(), &rec.normal);
        if T::from_int(0).lt(&self.fuzz) {
            reflected = reflected.plus(sample.sphere_point.scaled(self.fuzz));
        }
        let scattered = Ray::new(rec.p, reflected, r_in.tm);
        if T::from_int(0).lt(&dot(&scattered.dir, &rec.normal)) {
            Some((self.albedo, scattered))
        } else {
            None
        }
    }

    fn emitted(&self, u: &T, v: &T, p: &Point<T>) -> (c: Color<T>) {
        Vec3::zero()
    }
}

impl<T: RayTracingFloat> Dielectric<T> {
    pub fn new(index_of_refraction: T) -> (r: Self)
        ensures
            r.ir == index_of_refraction,
    {
        Dielectric { ir: index_of_refraction }
    }

    /// Schlick's approximation for reflectance.
    pub fn reflectance(cosine: T, ref_idx: T) -> (r: T)
        ensures
            r == spec_reflectance(cosine, ref_idx),
    {
        let one = T::from_int(1);
        let q = one.sub(ref_idx).div(one.add(ref_idx));
        let r0 = q.mul(q);
        let x = one.sub(cosine);
        let x2 = x.mul(x);
        r0.add(one.sub(r0).mul(x2.mul(x2).mul(x)))
    }
}

impl<T: RayTracingFloat> Material<T> for Dielectric<T> {
    /// Never absorbs and never tints: the attenuation is white.
    open spec fn scatter_spec(&self, r_in: Ray<T>, rec: HitRecord<T>, sample: ScatterSample<T>) -> Option<
        (Color<T>, Ray<T>),
    > {
        Some(
            (
                ray::spec_vec_of_ints(1, 1, 1),
                Ray {
                    orig: rec.p,
                    dir: spec_dielectric_direction(self.ir, r_in.dir, rec, sample),
                    tm: r_in.tm,
                },
            ),
        )
    }

    open spec fn emitted_spec(&self, u: T, v: T, p: Point<T>) -> Color<T> {
        ray::spec_zero()
    }

    fn scatter(&self, r_in: &Ray<T>, rec: &HitRecord<T>, sample: &ScatterSample<T>) -> (r: Option<
        (Color<T>, Ray<T>),
    >) {
        let one = T::from_int(1);
        let attenuation = Vec3::new(one, one, one);
        let refraction_ratio = if rec.front_face {
            one.div(self.ir)
        } else {
            self.ir
        };
        let unit_direction = r_in.dir.unit_vector();
        let cos_theta = min(dot(&unit_direction.negated(), &rec.normal), one);
        let sin_theta = one.sub(cos_theta.mul(cos_theta)).square_root();
        let cannot_refract = one.lt(&refraction_ratio.mul(sin_theta)) || sample.unit.lt(
            &Self::reflectance(cos_theta, refraction_ratio),
        );
        let direction = if cannot_refract {
            ray::reflect(&unit_direction, &rec.normal)
        } else {
            ray::refract(&unit_direction, &rec.normal, &refraction_ratio)
        };
        Some((attenuation, Ray::new(rec.p, direction, r_in.tm)))
    }

    fn emitted(&self, u: &T, v: &T, p: &Point<T>) -> (c: Color<T>) {
        Vec3::zero()
    }
}

impl<T: RayTracingFloat> DiffuseLight<T> {
    /// A light of one colour.
    pub fn new(color: Color<T>) -> (r: Self)
        ensures
            *r.emit == TextureKind::Solid(SolidColor { color_value: color }),
    {
        DiffuseLight { emit: Rc::new(TextureKind::Solid(SolidColor::new(color))) }
    }

    pub fn new_with_texture(a: Rc<TextureKind<T>>) -> (r: Self)
        ensures
            r.emit == a,
    {
        DiffuseLight { emit: a }
    }
}

impl<T: RayTracingFloat> Material<T> for DiffuseLight<T> {
    /// A light absorbs every ray.
    open spec fn scatter_spec(&self, r_in: Ray<T>, rec: HitRecord<T>, sample: ScatterSample<T>) -> Option<
        (Color<T>, Ray<T>),
    > {
        None
    }

    open spec fn emitted_spec(&self, u: T, v: T, p: Point<T>) -> Color<T> {
        self.emit.value_spec(u, v, p)
    }

    fn scatter(&self, r_in: &Ray<T>, rec: &HitRecord<T>, sample: &ScatterSample<T>) -> (r: Option<
        (Color<T>, Ray<T>),
    >) {
        None
    }

    fn emitted(&self, u: &T, v: &T, p: &Point<T>) -> (c: Color<T>) {
        self.emit.value(u, v, p)
    }
}

impl<T: RayTracingFloat> Material<T> for MaterialKind<T> {
    open spec fn scatter_spec(&self, r_in: Ray<T>, rec: HitRecord<T>, sample: ScatterSample<T>) -> Option<
        (Color<T>, Ray<T>),
    > {
        match self {
            MaterialKind::Lambertian(m) => m.scatter_spec(r_in, rec, sample),
            MaterialKind::Metal(m) => m.scatter_spec(r_in, rec, sample),
            MaterialKind::Dielectric(m) => m.scatter_spec(r_in, rec, sample),
            MaterialKind::DiffuseLight(m) => m.scatter_spec(r_in, rec, sample),
        }
    }

    open spec fn emitted_spec(&self, u: T, v: T, p: Point<T>) -> Color<T> {
        match self {
            MaterialKind::Lambertian(m) => m.emitted_spec(u, v, p),
            MaterialKind::Metal(m) => m.emitted_spec(u, v, p),
            MaterialKind::Dielectric(m) => m.emitted_spec(u, v, p),
            MaterialKind::DiffuseLight(m) => m.emitted_spec(u, v, p),
        }
    }

    fn scatter(&self, r_in: &Ray<T>, rec: &HitRecord<T>, sample: &ScatterSample<T>) -> (r: Option<
        (Color<T>, Ray<T>),
    >) {
        match self {
            MaterialKind::Lambertian(m) => m.scatter(r_in, rec, sample),
            MaterialKind::Metal(m) => m.scatter(r_in, rec, sample),
            MaterialKind::Dielectric(m) => m.scatter(r_in, rec, sample),
            MaterialKind::DiffuseLight(m) => m.scatter(r_in, rec, sample),
        }
    }

    fn emitted(&self, u: &T, v: &T, p: &Point<T>) -> (c: Color<T>) {
        match self {
            MaterialKind::Lambertian(m) => m.emitted(u, v, p),
            MaterialKind::Metal(m) => m.emitted(u, v, p),
            MaterialKind::Dielectric(m) => m.emitted(u, v, p),
            MaterialKind::DiffuseLight(m) => m.emitted(u, v, p),
        }
    }
}

/// A diffuse surface never scatters into a direction near zero of its own
/// making: the direction is the normal itself, or it has a component that is
/// not below the threshold. So it is the zero vector only where the normal is.
pub proof fn lemma_lambertian_direction<T: RayTracingFloat>(
    m: Lambertian<T>,
    r_in: Ray<T>,
    rec: HitRecord<T>,
    sample: ScatterSample<T>,
)
    ensures
        m.scatter_spec(r_in, rec, sample) is Some,
        ({
            let d = m.scatter_spec(r_in, rec, sample).unwrap().1.dir;
            &&& d == rec.normal || !d.spec_near_zero()
            &&& rec.normal != ray::spec_zero::<T>() ==> d != ray::spec_zero::<T>()
        }),
{
    T::lemma_positive_ratio(1, 100_000_000);
    T::lemma_abs_zero();
}

/// Beyond the critical angle a clear solid mirrors the ray, whatever the
/// sample is: the random test against the reflectance has no say.
pub proof fn lemma_total_internal_reflection<T: RayTracingFloat>(
    m: Dielectric<T>,
    r_in: Ray<T>,
    rec: HitRecord<T>,
    sample: ScatterSample<T>,
)
    requires
        spec_total_internal_reflection(m.ir, r_in.dir, rec),
    ensures
        m.scatter_spec(r_in, rec, sample) == Some(
            (
                ray::spec_vec_of_ints::<T>(1, 1, 1),
                Ray {
                    orig: rec.p,
                    dir: ray::spec_reflect(r_in.dir.spec_unit_vector(), rec.normal),
                    tm: r_in.tm,
                },
            ),
        ),
{
}

} // verus!
