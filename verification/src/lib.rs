//! A path tracer with its geometry proved.
//!
//! The crate holds the core of an offline renderer: rays, bounding boxes,
//! spheres, rectangles and boxes, the transforms that move and turn them, a
//! bounding volume hierarchy, materials and textures, and the recursion that
//! turns a ray into a colour. All of it is written over an abstract scalar
//! (see [`scalar`]), so that every function has a contract that says exactly
//! what it returns, for floating point as for any other arithmetic.
//!
//! Nothing here draws a random number but the hierarchy, which draws the axis
//! along which a node splits its objects, and which can be built from given
//! draws as well. Whatever else is random in a rendering (where a ray starts,
//! how a surface scatters it) is handed in by the caller, and the result is a
//! function of what was handed in.
pub mod aabb;
pub mod bvh;
pub mod camera;
pub mod color;
pub mod hittable;
pub mod hittable_box;
pub mod hittable_sphere;
pub mod integrator;
pub mod material;
pub mod ray;
pub mod scalar;
pub mod texture;
pub mod utils;
pub mod vec3;
