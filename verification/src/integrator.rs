//! The path tracer: the light that arrives along one ray.
use crate::color::Color;
use crate::hittable::Hittable;
use crate::material::Material;
use crate::material::ScatterSample;
use crate::ray::spec_zero;
use crate::ray::Ray;
use crate::scalar::RayTracingFloat;
use crate::utils::ratio;
use crate::utils::spec_ratio;
use crate::vec3::Vec3;
use vstd::prelude::*;

verus! {

/// The nearest parameter at which a hit counts: `1 / 1000`. A ray that
/// leaves a surface would else hit that surface again at once.
pub open spec fn spec_shadow_bias<T: RayTracingFloat>() -> T {
    spec_ratio::<T>(1, 1000)
}

/// The light along `r` after at most `depth` bounces, with `samples[0]`
/// for the first bounce, `samples[1]` for the second, and so on.
///
/// Nothing after the last bounce. The background where the ray leaves the
/// scene. Else what the surface gives off, plus, unless the surface absorbs
/// the ray or no sample is left to scatter it with, the attenuation times
/// the light along the scattered ray.
pub open spec fn spec_ray_color<T: RayTracingFloat, H: Hittable<T>>(
    r: Ray<T>,
    background: Color<T>,
    world: H,
    depth: nat,
    samples: Seq<ScatterSample<T>>,
) -> Color<T>
    decreases depth,
{
    if depth == 0 {
        spec_zero()
    } else {
        match world.hit_spec(r, spec_shadow_bias(), T::infinity_spec()) {
            None => background,
            Some(rec) => {
                let emitted = rec.mat.emitted_spec(rec.u, rec.v, rec.p);
                let scatter = if samples.len() == 0 {
                    None
                } else {
                    rec.mat.scatter_spec(r, rec, samples[0])
                };
                match scatter {
                    None => emitted,
                    Some((attenuation, scattered)) => emitted.plus(
                        attenuation.times(
                            spec_ray_color(
                                scattered,
                                background,
                                world,
                                (depth - 1) as nat,
                                samples.drop_first(),
                            ),
                        ),
                    ),
                }
            },
        }
    }
}

/// The light along `r` after at most `depth` bounces. One sample is used
/// for each bounce, in order: a caller who wants `depth` bounces hands in at
/// least as many samples. With fewer, the path ends at the surface for which
/// none is left.
pub fn ray_color<T: RayTracingFloat, H: Hittable<T>>(
    r: &Ray<T>,
    background: &Color<T>,
    world: &H,
    depth: u32,
    samples: &Vec<ScatterSample<T>>,
) -> (c: Color<T>)
    ensures
        c == spec_ray_color(*r, *background, *world, depth as nat, samples@),
{
    assert(samples@.skip(0) == samples@);
    ray_color_from(r, background, world, depth, samples, 0)
}

fn ray_color_from<T: RayTracingFloat, H: Hittable<T>>(
    r: &Ray<T>,
    background: &Color<T>,
    world: &H,
    depth: u32,
    samples: &Vec<ScatterSample<T>>,
    next: usize,
) -> (c: Color<T>)
    requires
        next <= samples.len(),
    ensures
        c == spec_ray_color(*r, *background, *world, depth as nat, samples@.skip(next as int)),
    decreases depth,
{
    // If we've exceeded the ray bounce limit, no more light is gathered.
    if depth == 0 {
        return Vec3::zero();
    }
    // If the ray hits nothing, return the background color.
    let rec = match world.hit(r, &ratio(1, 1000), &T::infinity()) {
        None => {
            return *background;
        },
        Some(rec) => rec,
    };
    let emitted = rec.mat.emitted(&rec.u, &rec.v, &rec.p);
    if next >= samples.len() {
        return emitted;
    }
    assert(samples@.skip(next as int).drop_first() == samples@.skip(next + 1));
    match rec.mat.scatter(r, &rec, &samples[next]) {
        None => emitted,
        Some((attenuation, scattered)) => emitted.plus(
            attenuation.times(
                ray_color_from(&scattered, background, world, depth - 1, samples, next + 1),
            ),
        ),
    }
}

} // verus!
