use raytracer::scalar::{RayTracingFloat, Sqrt, Vec3Elem};
use raytracer::vec3::{cross, dot, reflect, Vec3};

#[derive(Clone, Copy, Debug, PartialEq, PartialOrd)]
struct F(f64);

impl Sqrt for F {
    fn sqrt_spec(self) -> Self {
        F(self.0.sqrt())
    }
    fn square_root(&self) -> Self {
        F(self.0.sqrt())
    }
}

impl Vec3Elem for F {
    fn neg_spec(self) -> Self {
        F(-self.0)
    }
    fn add_spec(self, rhs: Self) -> Self {
        F(self.0 + rhs.0)
    }
    fn sub_spec(self, rhs: Self) -> Self {
        F(self.0 - rhs.0)
    }
    fn mul_spec(self, rhs: Self) -> Self {
        F(self.0 * rhs.0)
    }
    fn div_spec(self, rhs: Self) -> Self {
        F(self.0 / rhs.0)
    }
    fn neg(self) -> Self {
        F(-self.0)
    }
    fn add(self, rhs: Self) -> Self {
        F(self.0 + rhs.0)
    }
    fn sub(self, rhs: Self) -> Self {
        F(self.0 - rhs.0)
    }
    fn mul(self, rhs: Self) -> Self {
        F(self.0 * rhs.0)
    }
    fn div(self, rhs: Self) -> Self {
        F(self.0 / rhs.0)
    }
}

impl RayTracingFloat for F {
    fn lt_spec(self, rhs: Self) -> bool {
        self.0 < rhs.0
    }
    fn le_spec(self, rhs: Self) -> bool {
        self.0 <= rhs.0
    }
    fn is_number(self) -> bool {
        !self.0.is_nan()
    }
    fn from_int_spec(n: usize) -> Self {
        F(n as f64)
    }
    fn to_u8_spec(self) -> u8 {
        self.0 as u8
    }
    fn abs_spec(self) -> Self {
        F(self.0.abs())
    }
    fn infinity_spec() -> Self {
        F(f64::INFINITY)
    }
    fn pi_spec() -> Self {
        F(std::f64::consts::PI)
    }
    fn sin_spec(self) -> Self {
        F(libm::sin(self.0))
    }
    fn cos_spec(self) -> Self {
        F(libm::cos(self.0))
    }
    fn tan_spec(self) -> Self {
        F(libm::tan(self.0))
    }
    fn acos_spec(self) -> Self {
        F(libm::acos(self.0))
    }
    fn atan2_spec(self, x: Self) -> Self {
        F(libm::atan2(self.0, x.0))
    }
    fn lt(&self, rhs: &Self) -> bool {
        self.0 < rhs.0
    }
    fn le(&self, rhs: &Self) -> bool {
        self.0 <= rhs.0
    }
    fn from_int(n: usize) -> Self {
        F(n as f64)
    }
    fn to_u8(self) -> u8 {
        self.0 as u8
    }
    fn abs(self) -> Self {
        F(self.0.abs())
    }
    fn infinity() -> Self {
        F(f64::INFINITY)
    }
    fn pi() -> Self {
        F(std::f64::consts::PI)
    }
    fn sin(self) -> Self {
        F(libm::sin(self.0))
    }
    fn cos(self) -> Self {
        F(libm::cos(self.0))
    }
    fn tan(self) -> Self {
        F(libm::tan(self.0))
    }
    fn acos(self) -> Self {
        F(libm::acos(self.0))
    }
    fn atan2(self, x: Self) -> Self {
        F(libm::atan2(self.0, x.0))
    }
    fn lemma_lt_irreflexive(_a: Self) {}
    fn lemma_lt_transitive(_a: Self, _b: Self, _c: Self) {}
    fn lemma_le_lt(_a: Self, _b: Self) {}
    fn lemma_le_transitive(_a: Self, _b: Self, _c: Self) {}
    fn lemma_number(_a: Self, _b: Self) {}
    fn lemma_total(_a: Self, _b: Self) {}
    fn lemma_abs_zero() {}
    fn lemma_sqrt_not_negative(_a: Self) {}
    fn lemma_add_sub_order(_a: Self, _s: Self) {}
    fn lemma_div_monotone(_a: Self, _b: Self, _d: Self) {}
    fn lemma_positive_ratio(_n: usize, _d: usize) {}
}

fn v(x: f64, y: f64, z: f64) -> Vec3<F> {
    Vec3::new(F(x), F(y), F(z))
}

fn xyz(p: &Vec3<F>) -> (f64, f64, f64) {
    (p.x.0, p.y.0, p.z.0)
}

#[test]
fn new_keeps_the_components() {
    let a = v(1.0, 2.0, 3.0);
    assert_eq!((a.x().0, a.y().0, a.z().0), (1.0, 2.0, 3.0));
    assert_eq!((a.get(0).0, a.get(1).0, a.get(2).0), (1.0, 2.0, 3.0));
}

#[test]
fn set_replaces_one_component() {
    let mut a = v(1.0, 2.0, 3.0);
    a.set(1, F(7.0));
    assert_eq!(xyz(&a), (1.0, 7.0, 3.0));
}

#[test]
fn dot_is_the_sum_of_products() {
    assert_eq!(dot(&v(1.0, 0.0, 0.0), &v(0.0, 1.0, 0.0)), F(0.0));
    assert_eq!(dot(&v(1.0, 2.0, 3.0), &v(4.0, 5.0, 6.0)), F(32.0));
}

#[test]
fn cross_of_x_and_y_is_z() {
    let c = cross(&v(1.0, 0.0, 0.0), &v(0.0, 1.0, 0.0));
    assert_eq!(xyz(&c), (0.0, 0.0, 1.0));
    let c = cross(&v(1.0, 2.0, 3.0), &v(4.0, 5.0, 6.0));
    assert_eq!(xyz(&c), (-3.0, 6.0, -3.0));
}

#[test]
fn length_of_a_pythagorean_vector() {
    let a = v(3.0, 4.0, 12.0);
    assert_eq!(a.length_squared(), F(169.0));
    assert_eq!(a.length(), F(13.0));
    assert_eq!(xyz(&v(0.0, 3.0, 4.0).unit_vector()), (0.0, 0.6, 0.8));
}

#[test]
fn operators_work_component_by_component() {
    assert_eq!(xyz(&(v(1.0, 2.0, 3.0) + v(10.0, 20.0, 30.0))), (11.0, 22.0, 33.0));
    assert_eq!(xyz(&(v(1.0, 2.0, 3.0) - v(10.0, 20.0, 30.0))), (-9.0, -18.0, -27.0));
    assert_eq!(xyz(&(v(1.0, 2.0, 3.0) * v(2.0, 3.0, 4.0))), (2.0, 6.0, 12.0));
    assert_eq!(xyz(&(v(1.0, 2.0, 3.0) * F(2.0))), (2.0, 4.0, 6.0));
    assert_eq!(xyz(&(v(1.0, 2.0, 3.0) / F(2.0))), (0.5, 1.0, 1.5));
    assert_eq!(xyz(&(-v(1.0, 2.0, 3.0))), (-1.0, -2.0, -3.0));
}

#[test]
fn methods_agree_with_the_operators() {
    let a = v(1.0, 2.0, 3.0);
    let b = v(-4.0, 0.5, 8.0);
    assert_eq!(xyz(&a.plus(b)), xyz(&(a + b)));
    assert_eq!(xyz(&a.minus(b)), xyz(&(a - b)));
    assert_eq!(xyz(&a.times(b)), xyz(&(a * b)));
    assert_eq!(xyz(&a.scaled(F(3.0))), xyz(&(a * F(3.0))));
    assert_eq!(xyz(&a.shrunk(F(4.0))), xyz(&(a / F(4.0))));
    assert_eq!(xyz(&a.negated()), xyz(&(-a)));
}

#[test]
fn reflect_mirrors_at_the_normal() {
    let r = reflect(&v(1.0, -1.0, 0.0), &v(0.0, 1.0, 0.0));
    assert_eq!(xyz(&r), (1.0, 1.0, 0.0));
}
