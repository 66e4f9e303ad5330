//! Core of a user-mode driver for a fixed-function 3D rasterizer.
//!
//! The crate holds the device-independent logic of the driver: the packed
//! screen-vertex and command encodings, the double-buffered command stream,
//! texture storage and residency tracking, frame and depth buffer rotation,
//! the face-culling policy, homogeneous clipping on fixed-point clip
//! coordinates, and the software rasterizer fallback.  Device access (UIO,
//! DMA allocation, MMIO, interrupts) stays outside; callers hand the library
//! plain values (addresses, sizes, vertices) and carry the produced command
//! words to the hardware.

pub mod clip;
pub mod command;
pub mod context;
pub mod cull;
pub mod perf;
pub mod pipeline;
pub mod raster;
pub mod residency;
pub mod texture;
pub mod vertex;
