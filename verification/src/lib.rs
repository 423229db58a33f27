//! A software rasterizer core on fixed-point numbers.
//!
//! Triangles arrive in clip space, are mapped to pixel coordinates by the
//! [`camera::Camera`], bounded by an [`aabb::AABB`], and filled by a
//! depth-tested barycentric test. Every real quantity is a signed fixed-point
//! number with 24 fractional bits, so that the edge tests are exact and the
//! contracts can speak of integers.
//!
//! Depth follows the conventional direction: `0` is the near plane,
//! [`fixed::ONE`] the far plane, and the nearer of two fragments wins.
//!
//! The library holds no floating-point number. What places a mesh in clip
//! space, the linear algebra of the world, view and projection transforms,
//! is the caller's; so are the window and the files that meshes come from.

pub mod fixed;
pub mod vector;
pub mod triangle;
pub mod aabb;
pub mod camera;
pub mod barycentric;
pub mod raster;
pub mod input_manager;
pub mod object;
pub mod scene;
