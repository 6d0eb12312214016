//! Integer and byte-level core of a Monte Carlo path tracer: random integer
//! draws, Perlin lattice tables, decoded texture storage, the shape of the
//! bounding-volume hierarchy, the stratified sampling grid and the plain-text
//! raster encoding.
pub mod aabb;
pub mod bvh;
pub mod camera;
pub mod color;
pub mod image_loader;
pub mod perlin;
pub mod texture;
pub mod utils;
