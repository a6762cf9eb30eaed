//! Resource and dispatch planning for the GPU scan, radix sort, projection
//! and color kernels.

pub mod color;
pub mod limits;
pub mod radix;
pub mod scan;
pub mod project;
pub mod params;
