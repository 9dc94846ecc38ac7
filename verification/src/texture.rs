//! Textures: a colour for every point of a surface.
use crate::color::Color;
use crate::ray::Point;
use crate::scalar::RayTracingFloat;
use std::rc::Rc;
use vstd::prelude::*;

verus! {

/// A function from the surface coordinates `(u, v)` and the point `p` to a
/// colour.
pub trait Texture<T: RayTracingFloat> {
    spec fn value_spec(&self, u: T, v: T, p: Point<T>) -> Color<T>;

    fn value(&self, u: &T, v: &T, p: &Point<T>) -> (c: Color<T>)
        ensures
            c == self.value_spec(*u, *v, *p),
    ;
}

/// One colour everywhere.
pub struct SolidColor<T: RayTracingFloat> {
    pub color_value: Color<T>,
}

/// Two textures in a chequered pattern in space.
pub struct CheckerTexture<T: RayTracingFloat> {
    pub odd: Rc<TextureKind<T>>,
    pub even: Rc<TextureKind<T>>,
}

/// The textures of this crate.
pub enum TextureKind<T: RayTracingFloat> {
    Solid(SolidColor<T>),
    Checker(CheckerTexture<T>),
}

/// The product of the sines of ten times each coordinate of `p`; its sign
/// tells the two fields of a [`CheckerTexture`] apart.
pub open spec fn spec_checker_sines<T: RayTracingFloat>(p: Point<T>) -> T {
    let ten = T::from_int_spec(10);
    ten.mul_spec(p.x).sin_spec().mul_spec(ten.mul_spec(p.y).sin_spec()).mul_spec(
        ten.mul_spec(p.z).sin_spec(),
    )
}

impl<T: RayTracingFloat> SolidColor<T> {
    pub fn new(color: Color<T>) -> (r: Self)
        ensures
            r.color_value == color,
    {
        SolidColor { color_value: color }
    }
}

impl<T: RayTracingFloat> Texture<T> for SolidColor<T> {
    open spec fn value_spec(&self, u: T, v: T, p: Point<T>) -> Color<T> {
        self.color_value
    }

    fn value(&self, u: &T, v: &T, p: &Point<T>) -> (c: Color<T>) {
        self.color_value
    }
}

impl<T: RayTracingFloat> CheckerTexture<T> {
    /// The checker of two solid colours: `c1` on the even fields, `c2` on
    /// the odd ones.
    pub fn new(c1: Color<T>, c2: Color<T>) -> (r: Self)
        ensures
            *r.even == TextureKind::Solid(SolidColor { color_value: c1 }),
            *r.odd == TextureKind::Solid(SolidColor { color_value: c2 }),
    {
        CheckerTexture {
            even: Rc::new(TextureKind::Solid(SolidColor::new(c1))),
            odd: Rc::new(TextureKind::Solid(SolidColor::new(c2))),
        }
    }
}

impl<T: RayTracingFloat> Texture<T> for CheckerTexture<T> {
    /// The odd texture where the product of sines is negative, else the
    /// even one.
    open spec fn value_spec(&self, u: T, v: T, p: Point<T>) -> Color<T>
        decreases self, 0int,
    {
        if spec_checker_sines(p).lt_spec(T::from_int_spec(0)) {
            self.odd.value_spec(u, v, p)
        } else {
            self.even.value_spec(u, v, p)
        }
    }

    fn value(&self, u: &T, v: &T, p: &Point<T>) -> (c: Color<T>)
        decreases self, 0int,
    {
        let ten = T::from_int(10);
        let sines = ten.mul(p.x).sin().mul(ten.mul(p.y).sin()).mul(ten.mul(p.z).sin());
        if sines.lt(&T::from_int(0)) {
            self.odd.value(u, v, p)
        } else {
            self.even.value(u, v, p)
        }
    }
}

impl<T: RayTracingFloat> Texture<T> for TextureKind<T> {
    open spec fn value_spec(&self, u: T, v: T, p: Point<T>) -> Color<T>
        decreases self, 1int,
    {
        match self {
            TextureKind::Solid(s) => s.value_spec(u, v, p),
            TextureKind::Checker(c) => c.value_spec(u, v, p),
        }
    }

    fn value(&self, u: &T, v: &T, p: &Point<T>) -> (c: Color<T>)
        decreases self, 1int,
    {
        match self {
            TextureKind::Solid(s) => s.value(u, v, p),
            TextureKind::Checker(c) => c.value(u, v, p),
        }
    }
}

} // verus!
