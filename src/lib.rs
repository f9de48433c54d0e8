//! Integer core of a Monte Carlo path tracer: the BVH's span layout, random
//! integer draws, the Perlin permutation lattice, checker parity, stratified
//! sampling counts, the row-tile schedule with its concurrency gate, the RGB
//! framebuffer, image texel lookup and rasterizer buffer handles.
pub mod bvh;
pub mod checker;
pub mod framebuffer;
pub mod image;
pub mod perlin;
pub mod raster;
pub mod rng;
pub mod sampling;
pub mod tiles;
