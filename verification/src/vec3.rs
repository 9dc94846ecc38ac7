//! Three-component vectors over any [`Vec3Elem`].
use crate::scalar::Vec3Elem;
use vstd::prelude::*;
use vstd::std_specs::ops::AddSpecImpl;
use vstd::std_specs::ops::DivSpecImpl;
use vstd::std_specs::ops::MulSpecImpl;
use vstd::std_specs::ops::NegSpecImpl;
use vstd::std_specs::ops::SubSpecImpl;

verus! {

/// A vector, a point or a colour: three components `x`, `y`, `z`.
///
/// The operators `-v`, `u + v`, `u - v`, `u * v`, `v * k` and `v / k` are
/// the methods `negated`, `plus`, `minus`, `times`, `scaled` and `shrunk`.
#[derive(Clone, Copy)]
pub struct Vec3<T: Vec3Elem> {
    pub x: T,
    pub y: T,
    pub z: T,
}

/// The sum of the three products of matching components, added from the left.
pub open spec fn spec_dot<T: Vec3Elem>(u: Vec3<T>, v: Vec3<T>) -> T {
    u.x.mul_spec(v.x).add_spec(u.y.mul_spec(v.y)).add_spec(u.z.mul_spec(v.z))
}

/// The vector product of `u` and `v`.
pub open spec fn spec_cross<T: Vec3Elem>(u: Vec3<T>, v: Vec3<T>) -> Vec3<T> {
    Vec3 {
        x: u.y.mul_spec(v.z).sub_spec(u.z.mul_spec(v.y)),
        y: u.z.mul_spec(v.x).sub_spec(u.x.mul_spec(v.z)),
        z: u.x.mul_spec(v.y).sub_spec(u.y.mul_spec(v.x)),
    }
}

/// `v` mirrored at the plane with normal `n`: `v - n * (v.n + v.n)`.
pub open spec fn spec_reflect<T: Vec3Elem>(v: Vec3<T>, n: Vec3<T>) -> Vec3<T> {
    v.minus(n.scaled(spec_dot(v, n).add_spec(spec_dot(v, n))))
}

impl<T: Vec3Elem> Vec3<T> {
    /// The component on axis `i`: 0 is `x`, 1 is `y`, anything else is `z`.
    pub open spec fn axis(self, i: int) -> T {
        if i == 0 {
            self.x
        } else if i == 1 {
            self.y
        } else {
            self.z
        }
    }

    pub open spec fn spec_negated(self) -> Self {
        Vec3 { x: self.x.neg_spec(), y: self.y.neg_spec(), z: self.z.neg_spec() }
    }

    pub open spec fn spec_plus(self, rhs: Self) -> Self {
        Vec3 {
            x: self.x.add_spec(rhs.x),
            y: self.y.add_spec(rhs.y),
            z: self.z.add_spec(rhs.z),
        }
    }

    pub open spec fn spec_minus(self, rhs: Self) -> Self {
        Vec3 {
            x: self.x.sub_spec(rhs.x),
            y: self.y.sub_spec(rhs.y),
            z: self.z.sub_spec(rhs.z),
        }
    }

    /// The product component by component.
    pub open spec fn spec_times(self, rhs: Self) -> Self {
        Vec3 {
            x: self.x.mul_spec(rhs.x),
            y: self.y.mul_spec(rhs.y),
            z: self.z.mul_spec(rhs.z),
        }
    }

    /// Every component multiplied by `k`.
    pub open spec fn spec_scaled(self, k: T) -> Self {
        Vec3 { x: self.x.mul_spec(k), y: self.y.mul_spec(k), z: self.z.mul_spec(k) }
    }

    /// Every component divided by `k`.
    pub open spec fn spec_shrunk(self, k: T) -> Self {
        Vec3 { x: self.x.div_spec(k), y: self.y.div_spec(k), z: self.z.div_spec(k) }
    }

    /// The squared length: `x*x + y*y + z*z`, added from the left.
    pub open spec fn spec_length_squared(self) -> T {
        spec_dot(self, self)
    }

    pub open spec fn spec_length(self) -> T {
        self.spec_length_squared().sqrt_spec()
    }

    /// The vector divided by its length.
    pub open spec fn spec_unit_vector(self) -> Self {
        self.shrunk(self.spec_length())
    }

    pub fn new(e0: T, e1: T, e2: T) -> (v: Self)
        ensures
            v == (Vec3 { x: e0, y: e1, z: e2 }),
    {
        Vec3 { x: e0, y: e1, z: e2 }
    }

    pub fn x(&self) -> (r: T)
        ensures
            r == self.x,
    {
        self.x
    }

    pub fn y(&self) -> (r: T)
        ensures
            r == self.y,
    {
        self.y
    }

    pub fn z(&self) -> (r: T)
        ensures
            r == self.z,
    {
        self.z
    }

    /// The component on axis `i`.
    pub fn get(&self, i: usize) -> (r: T)
        requires
            i < 3,
        ensures
            r == self.axis(i as int),
    {
        if i == 0 {
            self.x
        } else if i == 1 {
            self.y
        } else {
            self.z
        }
    }

    /// Replaces the component on axis `i`.
    pub fn set(&mut self, i: usize, value: T)
        requires
            i < 3,
        ensures
            final(self).axis(i as int) == value,
            forall|j: int| 0 <= j < 3 && j != i ==> final(self).axis(j) == old(self).axis(j),
    {
        if i == 0 {
            self.x = value;
        } else if i == 1 {
            self.y = value;
        } else {
            self.z = value;
        }
    }

    #[verifier::when_used_as_spec(spec_negated)]
    pub fn negated(self) -> (r: Self)
        ensures
            r == self.spec_negated(),
    {
        Vec3 { x: self.x.neg(), y: self.y.neg(), z: self.z.neg() }
    }

    #[verifier::when_used_as_spec(spec_plus)]
    pub fn plus(self, rhs: Self) -> (r: Self)
        ensures
            r == self.spec_plus(rhs),
    {
        Vec3 { x: self.x.add(rhs.x), y: self.y.add(rhs.y), z: self.z.add(rhs.z) }
    }

    #[verifier::when_used_as_spec(spec_minus)]
    pub fn minus(self, rhs: Self) -> (r: Self)
        ensures
            r == self.spec_minus(rhs),
    {
        Vec3 { x: self.x.sub(rhs.x), y: self.y.sub(rhs.y), z: self.z.sub(rhs.z) }
    }

    #[verifier::when_used_as_spec(spec_times)]
    pub fn times(self, rhs: Self) -> (r: Self)
        ensures
            r == self.spec_times(rhs),
    {
        Vec3 { x: self.x.mul(rhs.x), y: self.y.mul(rhs.y), z: self.z.mul(rhs.z) }
    }

    #[verifier::when_used_as_spec(spec_scaled)]
    pub fn scaled(self, k: T) -> (r: Self)
        ensures
            r == self.spec_scaled(k),
    {
        Vec3 { x: self.x.mul(k), y: self.y.mul(k), z: self.z.mul(k) }
    }

    #[verifier::when_used_as_spec(spec_shrunk)]
    pub fn shrunk(self, k: T) -> (r: Self)
        ensures
            r == self.spec_shrunk(k),
    {
        Vec3 { x: self.x.div(k), y: self.y.div(k), z: self.z.div(k) }
    }

    pub fn length(&self) -> (r: T)
        ensures
            r == self.spec_length(),
    {
        self.length_squared().square_root()
    }

    pub fn length_squared(&self) -> (r: T)
        ensures
            r == self.spec_length_squared(),
    {
        self.x.mul(self.x).add(self.y.mul(self.y)).add(self.z.mul(self.z))
    }

    pub fn unit_vector(&self) -> (r: Self)
        ensures
            r == self.spec_unit_vector(),
    {
        self.shrunk(self.length())
    }
}

impl<T: Vec3Elem> core::ops::Neg for Vec3<T> {
    type Output = Vec3<T>;

    fn neg(self) -> (r: Vec3<T>) {
        self.negated()
    }
}

impl<T: Vec3Elem> NegSpecImpl for Vec3<T> {
    open spec fn obeys_neg_spec() -> bool {
        true
    }

    open spec fn neg_req(self) -> bool {
        true
    }

    open spec fn neg_spec(self) -> Vec3<T> {
        self.negated()
    }
}

impl<T: Vec3Elem> core::ops::Add for Vec3<T> {
    type Output = Vec3<T>;

    fn add(self, rhs: Vec3<T>) -> (r: Vec3<T>) {
        self.plus(rhs)
    }
}

impl<T: Vec3Elem> AddSpecImpl for Vec3<T> {
    open spec fn obeys_add_spec() -> bool {
        true
    }

    open spec fn add_req(self, rhs: Vec3<T>) -> bool {
        true
    }

    open spec fn add_spec(self, rhs: Vec3<T>) -> Vec3<T> {
        self.plus(rhs)
    }
}

impl<T: Vec3Elem> core::ops::Sub for Vec3<T> {
    type Output = Vec3<T>;

    fn sub(self, rhs: Vec3<T>) -> (r: Vec3<T>) {
        self.minus(rhs)
    }
}

impl<T: Vec3Elem> SubSpecImpl for Vec3<T> {
    open spec fn obeys_sub_spec() -> bool {
        true
    }

    open spec fn sub_req(self, rhs: Vec3<T>) -> bool {
        true
    }

    open spec fn sub_spec(self, rhs: Vec3<T>) -> Vec3<T> {
        self.minus(rhs)
    }
}

impl<T: Vec3Elem> core::ops::Mul for Vec3<T> {
    type Output = Vec3<T>;

    fn mul(self, rhs: Vec3<T>) -> (r: Vec3<T>) {
        self.times(rhs)
    }
}

impl<T: Vec3Elem> MulSpecImpl for Vec3<T> {
    open spec fn obeys_mul_spec() -> bool {
        true
    }

    open spec fn mul_req(self, rhs: Vec3<T>) -> bool {
        true
    }

    open spec fn mul_spec(self, rhs: Vec3<T>) -> Vec3<T> {
        self.times(rhs)
    }
}

impl<T: Vec3Elem> core::ops::Mul<T> for Vec3<T> {
    type Output = Vec3<T>;

    fn mul(self, rhs: T) -> (r: Vec3<T>) {
        self.scaled(rhs)
    }
}

impl<T: Vec3Elem> MulSpecImpl<T> for Vec3<T> {
    open spec fn obeys_mul_spec() -> bool {
        true
    }

    open spec fn mul_req(self, rhs: T) -> bool {
        true
    }

    open spec fn mul_spec(self, rhs: T) -> Vec3<T> {
        self.scaled(rhs)
    }
}

impl<T: Vec3Elem> core::ops::Div<T> for Vec3<T> {
    type Output = Vec3<T>;

    fn div(self, rhs: T) -> (r: Vec3<T>) {
        self.shrunk(rhs)
    }
}

impl<T: Vec3Elem> DivSpecImpl<T> for Vec3<T> {
    open spec fn obeys_div_spec() -> bool {
        true
    }

    open spec fn div_req(self, rhs: T) -> bool {
        true
    }

    open spec fn div_spec(self, rhs: T) -> Vec3<T> {
        self.shrunk(rhs)
    }
}

pub fn dot<T: Vec3Elem>(u: &Vec3<T>, v: &Vec3<T>) -> (r: T)
    ensures
        r == spec_dot(*u, *v),
{
    u.x.mul(v.x).add(u.y.mul(v.y)).add(u.z.mul(v.z))
}

pub fn cross<T: Vec3Elem>(u: &Vec3<T>, v: &Vec3<T>) -> (r: Vec3<T>)
    ensures
        r == spec_cross(*u, *v),
{
    Vec3::new(
        u.y.mul(v.z).sub(u.z.mul(v.y)),
        u.z.mul(v.x).sub(u.x.mul(v.z)),
        u.x.mul(v.y).sub(u.y.mul(v.x)),
    )
}

pub fn reflect<T: Vec3Elem>(v: &Vec3<T>, n: &Vec3<T>) -> (r: Vec3<T>)
    ensures
        r == spec_reflect(*v, *n),
{
    let d = dot(v, n);
    v.minus(n.scaled(d.add(d)))
}

} // verus!
