//! A small Whitted-style ray tracer over fixed-point arithmetic.
//!
//! Every scalar quantity (coordinate, length, reflectance, light intensity,
//! colour channel) is stored as a signed integer multiple of `1/fixed::SCALE`.
//! All geometric decisions (intersection tests, nearest-hit selection, shadow
//! occlusion) are therefore exact integer computations, and every function of
//! the rendering pipeline carries a contract that pins its result down.

pub mod fixed;
pub mod math;
pub mod util;
pub mod light;
pub mod object;
pub mod scene;
pub mod camera;
pub mod image;
pub mod rendering;
