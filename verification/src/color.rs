//! Colours, and the mapping of an accumulated colour to a pixel.
use crate::scalar::RayTracingFloat;
use crate::utils::clamp;
use crate::utils::ratio;
use crate::utils::spec_clamp;
use crate::utils::spec_ratio;
use crate::vec3::Vec3;
use vstd::prelude::*;

verus! {

/// A colour: red in `x`, green in `y`, blue in `z`.
pub type Color<T> = Vec3<T>;

/// A pixel of four bytes.
#[derive(Clone, Copy, Debug, PartialEq, Eq, Structural)]
pub struct Rgba8 {
    pub r: u8,
    pub g: u8,
    pub b: u8,
    pub a: u8,
}

/// One channel of a pixel: the mean of the samples, gamma-corrected for
/// gamma 2 by a square root, held to `[0, 0.999]` and scaled to a byte.
pub open spec fn spec_channel<T: RayTracingFloat>(sum: T, samples: T) -> u8 {
    T::from_int_spec(256).mul_spec(
        spec_clamp(sum.div_spec(samples).sqrt_spec(), T::from_int_spec(0), spec_ratio::<T>(999, 1000)),
    ).to_u8_spec()
}

fn channel<T: RayTracingFloat>(sum: T, samples: T) -> (r: u8)
    ensures
        r == spec_channel(sum, samples),
{
    let c = clamp(sum.div(samples).square_root(), T::from_int(0), ratio(999, 1000));
    T::from_int(256).mul(c).to_u8()
}

/// The pixel for a colour that is the sum of `samples_per_pixel` samples.
/// The pixel is opaque.
pub fn write_color<T: RayTracingFloat>(pixel_color: &Color<T>, samples_per_pixel: &usize) -> (p:
    Rgba8)
    ensures
        p == (Rgba8 {
            r: spec_channel(pixel_color.x, T::from_int_spec(*samples_per_pixel)),
            g: spec_channel(pixel_color.y, T::from_int_spec(*samples_per_pixel)),
            b: spec_channel(pixel_color.z, T::from_int_spec(*samples_per_pixel)),
            a: 255,
        }),
{
    let samples = T::from_int(*samples_per_pixel);
    Rgba8 {
        r: channel(pixel_color.x, samples),
        g: channel(pixel_color.y, samples),
        b: channel(pixel_color.z, samples),
        a: 255,
    }
}

} // verus!
