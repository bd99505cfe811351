//! Verified core of a small Monte Carlo path tracer.
//!
//! The floating-point geometry (vector algebra, ray/primitive intersection
//! formulas, shading, tone mapping) lives in the unverified front end; this
//! library holds everything the renderer decides with integers and proves it:
//! the xorshift random-number engine, the closest-hit selection over
//! bit-ordered hit distances, the per-path bounce control, the tile
//! partition of the image rows, the packed-pixel format, and the shared
//! pixel buffer.

pub mod buffer;
pub mod color;
pub mod hit;
pub mod path;
pub mod rng;
pub mod scene;
pub mod tile;
