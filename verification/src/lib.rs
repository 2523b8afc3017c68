//! A Whitted-style ray-tracing kernel over saturating fixed-point arithmetic.
//!
//! The kernel renders a scene of spheres lit by point lights: ray/sphere
//! intersection, diffuse and specular shading with hard shadows, and
//! recursive reflection and refraction bounded by a depth cap. All numbers
//! are [`fx::Fx`] fixed-point values (64-bit raw integers in units of
//! 1/65536), so every arithmetic step has an exact, verified meaning; the
//! contracts pin each public function to a mathematical mirror of its body.

pub mod fx;
pub mod vec;
pub mod scene;
pub mod tracer;
