//! A CPU triangle rasterizer on 16.16 fixed-point numbers: vertex shading, clipping,
//! viewport mapping, scan conversion with barycentric interpolation, depth-tested writes,
//! fragment shading, supersampling and outline filters.
pub mod framebuffer;
pub mod math;
pub mod mesh;
pub mod rasterizer;
pub mod renderer;
pub mod texture;
pub mod vector;
pub mod vertex;
