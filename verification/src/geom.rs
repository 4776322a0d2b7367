//! Geometry: vectors, rays, boxes, materials and the things a ray can hit.
pub mod aabb;
pub mod bvh;
pub mod closest;
pub mod hittable;
pub mod material;
pub mod sphere;
pub mod texture;
pub mod vec3;

pub use aabb::{surrounding_box, AABB};
pub use bvh::{bvh_split_hittables, Axis};
pub use hittable::{BVHNode, Collection, Hittable};
pub use material::{Dielectric, Hit, Lambertian, Material, Metal, Scatter, ScatterSample};
pub use sphere::{Sphere, Timed};
pub use texture::{SolidColor, Texture};
pub use vec3::{Ray, Vec3};
