use raytracer::camera::Camera;
use raytracer::color::{write_color, Rgba8};
use raytracer::hittable::{HitRecord, Hittable, HittableList, Primitive};
use raytracer::hittable_box::XZ_Rect;
use raytracer::hittable_sphere::Sphere;
use raytracer::integrator::ray_color;
use raytracer::material::{Dielectric, DiffuseLight, Lambertian, Material, MaterialKind, Metal, ScatterSample};
use raytracer::ray::Ray;
use raytracer::scalar::{RayTracingFloat, Sqrt, Vec3Elem};
use raytracer::texture::{CheckerTexture, SolidColor, Texture, TextureKind};
use raytracer::vec3::Vec3;
use std::rc::Rc;

#[derive(Clone, Copy, Debug, PartialEq, PartialOrd)]
struct F(f64);

impl Sqrt for F {
    fn sqrt_spec(self) -> Self {
        F(self.0.sqrt())
    }
    fn square_root(&self) -> Self {
        F(self.0.sqrt())
    }
}

impl Vec3Elem for F {
    fn neg_spec(self) -> Self {
        F(-self.0)
    }
    fn add_spec(self, rhs: Self) -> Self {
        F(self.0 + rhs.0)
    }
    fn sub_spec(self, rhs: Self) -> Self {
        F(self.0 - rhs.0)
    }
    fn mul_spec(self, rhs: Self) -> Self {
        F(self.0 * rhs.0)
    }
    fn div_spec(self, rhs: Self) -> Self {
        F(self.0 / rhs.0)
    }
    fn neg(self) -> Self {
        F(-self.0)
    }
    fn add(self, rhs: Self) -> Self {
        F(self.0 + rhs.0)
    }
    fn sub(self, rhs: Self) -> Self {
        F(self.0 - rhs.0)
    }
    fn mul(self, rhs: Self) -> Self {
        F(self.0 * rhs.0)
    }
    fn div(self, rhs: Self) -> Self {
        F(self.0 / rhs.0)
    }
}

impl RayTracingFloat for F {
    fn lt_spec(self, rhs: Self) -> bool {
        self.0 < rhs.0
    }
    fn le_spec(self, rhs: Self) -> bool {
        self.0 <= rhs.0
    }
    fn is_number(self) -> bool {
        !self.0.is_nan()
    }
    fn from_int_spec(n: usize) -> Self {
        F(n as f64)
    }
    fn to_u8_spec(self) -> u8 {
        self.0 as u8
    }
    fn abs_spec(self) -> Self {
        F(self.0.abs())
    }
    fn infinity_spec() -> Self {
        F(f64::INFINITY)
    }
    fn pi_spec() -> Self {
        F(std::f64::consts::PI)
    }
    fn sin_spec(self) -> Self {
        F(libm::sin(self.0))
    }
    fn cos_spec(self) -> Self {
        F(libm::cos(self.0))
    }
    fn tan_spec(self) -> Self {
        F(libm::tan(self.0))
    }
    fn acos_spec(self) -> Self {
        F(libm::acos(self.0))
    }
    fn atan2_spec(self, x: Self) -> Self {
        F(libm::atan2(self.0, x.0))
    }
    fn lt(&self, rhs: &Self) -> bool {
        self.0 < rhs.0
    }
    fn le(&self, rhs: &Self) -> bool {
        self.0 <= rhs.0
    }
    fn from_int(n: usize) -> Self {
        F(n as f64)
    }
    fn to_u8(self) -> u8 {
        self.0 as u8
    }
    fn abs(self) -> Self {
        F(self.0.abs())
    }
    fn infinity() -> Self {
        F(f64::INFINITY)
    }
    fn pi() -> Self {
        F(std::f64::consts::PI)
    }
    fn sin(self) -> Self {
        F(libm::sin(self.0))
    }
    fn cos(self) -> Self {
        F(libm::cos(self.0))
    }
    fn tan(self) -> Self {
        F(libm::tan(self.0))
    }
    fn acos(self) -> Self {
        F(libm::acos(self.0))
    }
    fn atan2(self, x: Self) -> Self {
        F(libm::atan2(self.0, x.0))
    }
    fn lemma_lt_irreflexive(_a: Self) {}
    fn lemma_lt_transitive(_a: Self, _b: Self, _c: Self) {}
    fn lemma_le_lt(_a: Self, _b: Self) {}
    fn lemma_le_transitive(_a: Self, _b: Self, _c: Self) {}
    fn lemma_number(_a: Self, _b: Self) {}
    fn lemma_total(_a: Self, _b: Self) {}
    fn lemma_abs_zero() {}
    fn lemma_sqrt_not_negative(_a: Self) {}
    fn lemma_add_sub_order(_a: Self, _s: Self) {}
    fn lemma_div_monotone(_a: Self, _b: Self, _d: Self) {}
    fn lemma_positive_ratio(_n: usize, _d: usize) {}
}

fn v(x: f64, y: f64, z: f64) -> Vec3<F> {
    Vec3::new(F(x), F(y), F(z))
}

fn xyz(p: &Vec3<F>) -> (f64, f64, f64) {
    (p.x.0, p.y.0, p.z.0)
}

fn close(a: f64, b: f64) -> bool {
    (a - b).abs() < 1e-9
}

fn close3(a: &Vec3<F>, b: (f64, f64, f64)) -> bool {
    close(a.x.0, b.0) && close(a.y.0, b.1) && close(a.z.0, b.2)
}

/// A sample whose point in the unit ball is `(x, y, z)` and whose direction
/// is that point scaled to length one.
fn sample(x: f64, y: f64, z: f64, unit: f64) -> ScatterSample<F> {
    let p = v(x, y, z);
    ScatterSample { unit_vector: Vec3::random_unit_vector(p).unwrap_or(p), sphere_point: p, unit: F(unit) }
}

/// A sample with the direction `(x, y, z)`, taken as it is.
fn toward(x: f64, y: f64, z: f64) -> ScatterSample<F> {
    ScatterSample { unit_vector: v(x, y, z), sphere_point: v(0.0, 0.0, 0.0), unit: F(0.5) }
}

/// A hit at the origin of a surface whose outward normal is `+y`.
fn floor_hit(r_in: &Ray<F>) -> HitRecord<F> {
    let m = Rc::new(MaterialKind::Lambertian(Lambertian::new(v(0.5, 0.5, 0.5))));
    let mut rec = HitRecord::new(r_in, F(1.0), &v(0.0, 1.0, 0.0), F(0.25), F(0.75), m);
    rec.p = v(0.0, 0.0, 0.0);
    rec
}

#[test]
fn solid_color_is_the_same_everywhere() {
    let t = SolidColor::new(v(0.1, 0.2, 0.3));
    assert_eq!(xyz(&t.value(&F(0.0), &F(0.0), &v(0.0, 0.0, 0.0))), (0.1, 0.2, 0.3));
    assert_eq!(xyz(&t.value(&F(0.9), &F(0.1), &v(5.0, -3.0, 2.0))), (0.1, 0.2, 0.3));
}

#[test]
fn checker_alternates_with_the_sign_of_the_sines() {
    let t = CheckerTexture::new(v(1.0, 1.0, 1.0), v(0.0, 0.0, 0.0));
    assert_eq!(xyz(&t.value(&F(0.0), &F(0.0), &v(0.1, 0.1, 0.1))), (1.0, 1.0, 1.0));
    assert_eq!(xyz(&t.value(&F(0.0), &F(0.0), &v(-0.1, 0.1, 0.1))), (0.0, 0.0, 0.0));
    assert_eq!(xyz(&t.value(&F(0.0), &F(0.0), &v(-0.1, -0.1, 0.1))), (1.0, 1.0, 1.0));
    assert_eq!(xyz(&t.value(&F(0.0), &F(0.0), &v(0.0, 0.1, 0.1))), (1.0, 1.0, 1.0));
    let nested = TextureKind::Checker(t);
    assert_eq!(xyz(&nested.value(&F(0.0), &F(0.0), &v(-0.1, 0.1, 0.1))), (0.0, 0.0, 0.0));
}

#[test]
fn lambertian_scatters_around_the_normal() {
    let m = Lambertian::new(v(0.8, 0.4, 0.2));
    let r_in = Ray::new(v(0.0, 5.0, 0.0), v(0.0, -1.0, 0.0), F(0.5));
    let rec = floor_hit(&r_in);
    let (attenuation, scattered) = m.scatter(&r_in, &rec, &sample(0.3, 0.0, 0.4, 0.0)).unwrap();
    assert_eq!(xyz(&attenuation), (0.8, 0.4, 0.2));
    assert_eq!(xyz(scattered.origin()), (0.0, 0.0, 0.0));
    assert_eq!(xyz(scattered.direction()), (0.6, 1.0, 0.8));
    assert_eq!(*scattered.time(), F(0.5));
    assert_eq!(xyz(&m.emitted(&F(0.0), &F(0.0), &v(0.0, 0.0, 0.0))), (0.0, 0.0, 0.0));
}

#[test]
fn lambertian_falls_back_to_the_normal_for_a_degenerate_direction() {
    let m = Lambertian::new(v(0.8, 0.4, 0.2));
    let r_in = Ray::new(v(0.0, 5.0, 0.0), v(0.0, -1.0, 0.0), F(0.0));
    let rec = floor_hit(&r_in);
    let (_, scattered) = m.scatter(&r_in, &rec, &sample(0.0, -0.5, 0.0, 0.0)).unwrap();
    assert_eq!(xyz(scattered.direction()), (0.0, 1.0, 0.0));
    assert!(scattered.direction().length_squared().0 > 0.0);
}

#[test]
fn lambertian_keeps_a_sum_with_negative_components() {
    let m = Lambertian::new(v(0.8, 0.4, 0.2));
    let r_in = Ray::new(v(0.0, 0.0, 5.0), v(0.0, 0.0, -1.0), F(0.0));
    let mut rec = floor_hit(&r_in);
    rec.normal = v(0.0, 0.0, -1.0);
    let (_, scattered) = m.scatter(&r_in, &rec, &toward(-0.6, -0.8, 0.0)).unwrap();
    assert_eq!(xyz(scattered.direction()), (-0.6, -0.8, -1.0));
    rec.normal = v(-1.0, 0.0, 0.0);
    let (_, scattered) = m.scatter(&r_in, &rec, &toward(0.0, -1.0, 0.0)).unwrap();
    assert_eq!(xyz(scattered.direction()), (-1.0, -1.0, 0.0));
}

#[test]
fn lambertian_replaces_only_a_sum_that_is_near_zero_on_every_axis() {
    let m = Lambertian::new(v(0.8, 0.4, 0.2));
    let r_in = Ray::new(v(0.0, 5.0, 0.0), v(0.0, -1.0, 0.0), F(0.0));
    let rec = floor_hit(&r_in);
    let (_, scattered) = m.scatter(&r_in, &rec, &toward(1e-9, -1.0, -1e-9)).unwrap();
    assert_eq!(xyz(scattered.direction()), (0.0, 1.0, 0.0));
    let (_, scattered) = m.scatter(&r_in, &rec, &toward(-1e-7, -1.0, 0.0)).unwrap();
    assert_eq!(xyz(scattered.direction()), (-1e-7, 0.0, 0.0));
    let (_, scattered) = m.scatter(&r_in, &rec, &toward(0.0, -3.0, 0.0)).unwrap();
    assert_eq!(xyz(scattered.direction()), (0.0, -2.0, 0.0));
}

#[test]
fn lambertian_takes_its_colour_from_the_texture() {
    let checker = Rc::new(TextureKind::Checker(CheckerTexture::new(v(1.0, 1.0, 1.0), v(0.0, 0.0, 0.0))));
    let m = Lambertian::new_with_texture(checker);
    let r_in = Ray::new(v(0.0, 5.0, 0.0), v(0.0, -1.0, 0.0), F(0.0));
    let mut rec = floor_hit(&r_in);
    rec.p = v(-0.1, 0.1, 0.1);
    let (attenuation, _) = m.scatter(&r_in, &rec, &sample(0.3, 0.0, 0.4, 0.0)).unwrap();
    assert_eq!(xyz(&attenuation), (0.0, 0.0, 0.0));
}

#[test]
fn metal_mirrors_the_ray() {
    let m = Metal::new(v(0.7, 0.6, 0.5), F(0.0));
    let r_in = Ray::new(v(-3.0, 4.0, 0.0), v(3.0, -4.0, 0.0), F(0.25));
    let rec = floor_hit(&r_in);
    let (attenuation, scattered) = m.scatter(&r_in, &rec, &sample(0.0, 0.0, 0.9, 0.0)).unwrap();
    assert_eq!(xyz(&attenuation), (0.7, 0.6, 0.5));
    assert!(close3(scattered.direction(), (0.6, 0.8, 0.0)));
    assert_eq!(xyz(scattered.origin()), (0.0, 0.0, 0.0));
    assert_eq!(*scattered.time(), F(0.25));
}

#[test]
fn metal_fuzz_moves_the_mirrored_ray_by_the_sample() {
    let m = Metal::new(v(0.7, 0.6, 0.5), F(0.5));
    let r_in = Ray::new(v(-3.0, 4.0, 0.0), v(3.0, -4.0, 0.0), F(0.0));
    let rec = floor_hit(&r_in);
    let (_, scattered) = m.scatter(&r_in, &rec, &sample(0.0, 0.0, 0.8, 0.0)).unwrap();
    assert!(close3(scattered.direction(), (0.6, 0.8, 0.4)));
}

#[test]
fn metal_absorbs_a_ray_that_is_pushed_below_the_surface() {
    let m = Metal::new(v(0.7, 0.6, 0.5), F(1.0));
    let r_in = Ray::new(v(-4.0, 3.0, 0.0), v(4.0, -3.0, 0.0), F(0.0));
    let rec = floor_hit(&r_in);
    assert!(m.scatter(&r_in, &rec, &sample(0.0, -0.9, 0.0, 0.0)).is_none());
    assert!(m.scatter(&r_in, &rec, &sample(0.0, 0.5, 0.0, 0.0)).is_some());
}

#[test]
fn metal_holds_its_fuzz_to_the_unit_interval() {
    assert_eq!(Metal::new(v(1.0, 1.0, 1.0), F(5.0)).fuzz, F(1.0));
    assert_eq!(Metal::new(v(1.0, 1.0, 1.0), F(-5.0)).fuzz, F(0.0));
    assert_eq!(Metal::new(v(1.0, 1.0, 1.0), F(0.3)).fuzz, F(0.3));
}

#[test]
fn reflectance_follows_schlick() {
    assert_eq!(Dielectric::reflectance(F(0.0), F(1.0)), F(1.0));
    assert_eq!(Dielectric::reflectance(F(1.0), F(1.0)), F(0.0));
    assert!(close(Dielectric::reflectance(F(1.0), F(1.5)).0, 0.04));
    assert!(close(Dielectric::reflectance(F(0.5), F(1.5)).0, 0.04 + 0.96 * 0.03125));
}

#[test]
fn dielectric_beyond_the_critical_angle_always_reflects() {
    let m = Dielectric::new(F(1.5));
    // The ray travels inside the glass and meets the surface from within.
    let r_in = Ray::new(v(-0.8, 0.6, 0.0), v(0.8, -0.6, 0.0), F(0.0));
    let mut rec = floor_hit(&r_in);
    rec.front_face = false;
    for unit in [0.0, 0.25, 0.5, 0.999_999] {
        let (attenuation, scattered) = m.scatter(&r_in, &rec, &sample(0.1, 0.2, 0.3, unit)).unwrap();
        assert_eq!(xyz(&attenuation), (1.0, 1.0, 1.0));
        assert!(close3(scattered.direction(), (0.8, 0.6, 0.0)));
    }
}

#[test]
fn dielectric_refracts_or_reflects_by_the_sample() {
    let m = Dielectric::new(F(1.5));
    let r_in = Ray::new(v(0.0, 5.0, 0.0), v(0.0, -1.0, 0.0), F(0.0));
    let rec = floor_hit(&r_in);
    assert!(rec.front_face);
    let (_, through) = m.scatter(&r_in, &rec, &sample(0.0, 0.0, 0.0, 0.5)).unwrap();
    assert!(close3(through.direction(), (0.0, -1.0, 0.0)));
    let (_, back) = m.scatter(&r_in, &rec, &sample(0.0, 0.0, 0.0, 0.01)).unwrap();
    assert!(close3(back.direction(), (0.0, 1.0, 0.0)));
}

#[test]
fn diffuse_light_emits_and_absorbs() {
    let m = DiffuseLight::new(v(15.0, 15.0, 15.0));
    let r_in = Ray::new(v(0.0, 5.0, 0.0), v(0.0, -1.0, 0.0), F(0.0));
    let rec = floor_hit(&r_in);
    assert!(m.scatter(&r_in, &rec, &sample(0.0, 0.0, 0.0, 0.0)).is_none());
    assert_eq!(xyz(&m.emitted(&F(0.0), &F(0.0), &v(0.0, 0.0, 0.0))), (15.0, 15.0, 15.0));
    let textured = DiffuseLight::new_with_texture(Rc::new(TextureKind::Solid(SolidColor::new(v(1.0, 2.0, 3.0)))));
    assert_eq!(xyz(&textured.emitted(&F(0.0), &F(0.0), &v(0.0, 0.0, 0.0))), (1.0, 2.0, 3.0));
}

#[test]
fn material_kind_dispatches_to_its_variant() {
    let r_in = Ray::new(v(0.0, 5.0, 0.0), v(0.0, -1.0, 0.0), F(0.0));
    let rec = floor_hit(&r_in);
    let light = MaterialKind::DiffuseLight(DiffuseLight::new(v(4.0, 4.0, 4.0)));
    assert!(light.scatter(&r_in, &rec, &sample(0.0, 0.0, 0.0, 0.0)).is_none());
    assert_eq!(xyz(&light.emitted(&F(0.0), &F(0.0), &v(0.0, 0.0, 0.0))), (4.0, 4.0, 4.0));
    let glass = MaterialKind::Dielectric(Dielectric::new(F(1.5)));
    assert_eq!(xyz(&glass.scatter(&r_in, &rec, &sample(0.0, 0.0, 0.0, 0.5)).unwrap().0), (1.0, 1.0, 1.0));
    let metal = MaterialKind::Metal(Metal::new(v(0.1, 0.2, 0.3), F(0.0)));
    assert_eq!(xyz(&metal.scatter(&r_in, &rec, &sample(0.0, 0.0, 0.0, 0.5)).unwrap().0), (0.1, 0.2, 0.3));
    assert_eq!(xyz(&metal.emitted(&F(0.0), &F(0.0), &v(0.0, 0.0, 0.0))), (0.0, 0.0, 0.0));
}

fn diffuse_ball() -> Primitive<F> {
    let m = Rc::new(MaterialKind::Lambertian(Lambertian::new(v(0.5, 0.5, 0.5))));
    Primitive::Sphere(Sphere::new(v(0.0, 0.0, 0.0), F(1.0), m))
}

#[test]
fn ray_color_is_black_when_no_bounce_is_left() {
    let world = diffuse_ball();
    let r = Ray::new(v(0.0, 0.0, -5.0), v(0.0, 0.0, 1.0), F(0.0));
    let c = ray_color(&r, &v(1.0, 0.8, 0.6), &world, 0, &vec![]);
    assert_eq!(xyz(&c), (0.0, 0.0, 0.0));
}

#[test]
fn ray_color_is_the_background_where_nothing_is_hit() {
    let world = diffuse_ball();
    let r = Ray::new(v(0.0, 5.0, -5.0), v(0.0, 0.0, 1.0), F(0.0));
    let c = ray_color(&r, &v(1.0, 0.8, 0.6), &world, 3, &vec![sample(0.0, 0.0, 0.1, 0.5); 3]);
    assert_eq!(xyz(&c), (1.0, 0.8, 0.6));
}

#[test]
fn ray_color_attenuates_what_the_scattered_ray_gathers() {
    let world = diffuse_ball();
    let r = Ray::new(v(0.0, 0.0, -5.0), v(0.0, 0.0, 1.0), F(0.0));
    let samples = vec![sample(0.0, 0.0, -0.5, 0.5); 2];
    let c = ray_color(&r, &v(1.0, 0.8, 0.6), &world, 2, &samples);
    assert_eq!(xyz(&c), (0.5, 0.4, 0.3));
    let c = ray_color(&r, &v(1.0, 0.8, 0.6), &world, 1, &samples);
    assert_eq!(xyz(&c), (0.0, 0.0, 0.0));
}

#[test]
fn ray_color_ends_where_the_samples_do() {
    let world = diffuse_ball();
    let r = Ray::new(v(0.0, 0.0, -5.0), v(0.0, 0.0, 1.0), F(0.0));
    let c = ray_color(&r, &v(1.0, 0.8, 0.6), &world, 5, &vec![]);
    assert_eq!(xyz(&c), (0.0, 0.0, 0.0));
    let c = ray_color(&r, &v(1.0, 0.8, 0.6), &world, 5, &vec![sample(0.0, 0.0, -0.5, 0.5); 1]);
    assert_eq!(xyz(&c), (0.5, 0.4, 0.3));
    let away = Ray::new(v(0.0, 5.0, -5.0), v(0.0, 0.0, 1.0), F(0.0));
    let c = ray_color(&away, &v(1.0, 0.8, 0.6), &world, 5, &vec![]);
    assert_eq!(xyz(&c), (1.0, 0.8, 0.6));
    let light = Rc::new(MaterialKind::DiffuseLight(DiffuseLight::new(v(15.0, 14.0, 13.0))));
    let lamp = Primitive::XZRect(XZ_Rect::new(F(-1.0), F(1.0), F(-1.0), F(1.0), F(5.0), light));
    let up = Ray::new(v(0.0, 0.0, 0.0), v(0.0, 1.0, 0.0), F(0.0));
    let c = ray_color(&up, &v(0.0, 0.0, 0.0), &lamp, 5, &vec![]);
    assert_eq!(xyz(&c), (15.0, 14.0, 13.0));
}

#[test]
fn ray_color_of_a_light_is_what_it_emits() {
    let light = Rc::new(MaterialKind::DiffuseLight(DiffuseLight::new(v(15.0, 14.0, 13.0))));
    let world = Primitive::XZRect(XZ_Rect::new(F(-1.0), F(1.0), F(-1.0), F(1.0), F(5.0), light));
    let r = Ray::new(v(0.0, 0.0, 0.0), v(0.0, 1.0, 0.0), F(0.0));
    let c = ray_color(&r, &v(0.0, 0.0, 0.0), &world, 5, &vec![sample(0.0, 0.0, 0.1, 0.5); 5]);
    assert_eq!(xyz(&c), (15.0, 14.0, 13.0));
}

#[test]
fn ray_color_adds_the_light_seen_after_a_bounce() {
    let light = Rc::new(MaterialKind::DiffuseLight(DiffuseLight::new(v(8.0, 4.0, 2.0))));
    let white = Rc::new(MaterialKind::Lambertian(Lambertian::new(v(0.5, 0.5, 0.5))));
    let mut world = HittableList::new_empty();
    world.add(Rc::new(Primitive::XZRect(XZ_Rect::new(F(-9.0), F(9.0), F(-9.0), F(9.0), F(0.0), white))));
    world.add(Rc::new(Primitive::XZRect(XZ_Rect::new(F(-9.0), F(9.0), F(-9.0), F(9.0), F(5.0), light))));
    let r = Ray::new(v(0.0, 2.0, 0.0), v(0.0, -1.0, 0.0), F(0.0));
    let samples = vec![sample(0.0, 0.5, 0.0, 0.5); 3];
    let c = ray_color(&r, &v(0.0, 0.0, 0.0), &world, 3, &samples);
    assert_eq!(xyz(&c), (4.0, 2.0, 1.0));
    assert!(world.hit(&r, &F(0.001), &F(f64::INFINITY)).is_some());
}

#[test]
fn camera_looks_down_the_negative_z_axis() {
    let cam = Camera::new(
        &v(0.0, 0.0, 0.0),
        &v(0.0, 0.0, -1.0),
        &v(0.0, 1.0, 0.0),
        &F(90.0),
        &F(2.0),
        &F(0.0),
        &F(1.0),
        &F(0.0),
        &F(1.0),
    );
    assert!(close3(&cam.horizontal, (4.0, 0.0, 0.0)));
    assert!(close3(&cam.vertical, (0.0, 2.0, 0.0)));
    assert!(close3(&cam.lower_left_corner, (-2.0, -1.0, -1.0)));
    assert_eq!(cam.lens_radius, F(0.0));
    let r = cam.get_ray(&F(0.5), &F(0.5), &v(0.3, 0.4, 0.0), &F(0.25));
    assert!(close3(r.origin(), (0.0, 0.0, 0.0)));
    assert!(close3(r.direction(), (0.0, 0.0, -1.0)));
    assert_eq!(*r.time(), F(0.25));
    let r = cam.get_ray(&F(0.0), &F(1.0), &v(0.0, 0.0, 0.0), &F(0.0));
    assert!(close3(r.direction(), (-2.0, 1.0, -1.0)));
}

#[test]
fn camera_lens_moves_the_origin_and_keeps_the_target() {
    let cam = Camera::new(
        &v(0.0, 0.0, 0.0),
        &v(0.0, 0.0, -1.0),
        &v(0.0, 1.0, 0.0),
        &F(90.0),
        &F(1.0),
        &F(2.0),
        &F(1.0),
        &F(0.0),
        &F(1.0),
    );
    assert_eq!(cam.lens_radius, F(1.0));
    let r = cam.get_ray(&F(0.5), &F(0.5), &v(0.5, -0.25, 0.0), &F(0.0));
    assert!(close3(r.origin(), (0.5, -0.25, 0.0)));
    assert!(close3(&r.at(&F(1.0)), (0.0, 0.0, -1.0)));
}

#[test]
fn write_color_averages_and_takes_the_square_root() {
    let p = write_color(&v(1.0, 4.0, 0.0), &4);
    assert_eq!(p, Rgba8 { r: 128, g: 255, b: 0, a: 255 });
    let p = write_color(&v(100.0, 0.25, 0.0625), &1);
    assert_eq!(p, Rgba8 { r: 255, g: 128, b: 64, a: 255 });
}
