//! A small path-tracing engine whose geometry kernel is verified.
//!
//! All geometric quantities are carried in fixed-point arithmetic: a real
//! value `x` is stored as the integer `x * SCALE`.  Working over integers
//! lets every routine in the engine — interval arithmetic, the bounding-box
//! slab test, hierarchy construction and traversal, scattering and the
//! Monte Carlo integrator — carry an exact mathematical contract.

pub mod aabb;
pub mod bvh;
pub mod camera;
pub mod hit_record;
pub mod hittable;
pub mod hittable_list;
pub mod interval;
pub mod lambertian;
pub mod material;
pub mod medium;
pub mod onb;
pub mod pdf;
pub mod perlin;
pub mod quad;
pub mod ray;
pub mod renderer;
pub mod rotate;
pub mod scalar;
pub mod screen;
pub mod sphere;
pub mod texture;
pub mod translate;
pub mod utility;
pub mod vec3;
