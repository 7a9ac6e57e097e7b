//! A Monte Carlo path tracer over saturating fixed-point arithmetic.
//!
//! Given a scene of spheres with materials and a camera, the kernel follows
//! light backward along rays: a ray that meets a surface is scattered by the
//! material there, and the colour that arrives along the scattered ray is
//! multiplied by what the material lets through. Every number is a [`Fixed`],
//! so that every operation is total, exact in its contract, and the same on
//! every machine.

pub mod camera;
pub mod hit;
pub mod image;
pub mod material;
pub mod precision;
pub mod ray;
pub mod render;
pub mod sampling;
pub mod scalar;
pub mod util;
pub mod vec3;

pub use crate::camera::Camera;
pub use crate::hit::{Hit, Hittable, Hittables, Sphere};
pub use crate::image::{new_image, render, render_row, set_pixel};
pub use crate::material::{reflectance, Material, MatteFinish, MetallicFinish, Refractive};
pub use crate::ray::Ray;
pub use crate::render::{
    average, background, gamma_correct, pixel_color, pixel_coordinate, quantize, ray_color,
    sink_row, to_rgb,
};
pub use crate::sampling::{
    accept_in_unit_disc, accept_in_unit_sphere, accept_on_unit_sphere, random_color,
    random_color_range, random_in_unit_disc, random_in_unit_sphere, random_on_unit_sphere, spread,
    uniform,
};
pub use crate::scalar::{Fixed, SCALE};
pub use crate::util::{
    component_mult, length, length_squared, near_zero, reflect, refract, unit_vector,
};
pub use crate::vec3::{Color, Point3, Vec3};
