//! Integer-exact core of an offline ray-tracing renderer: object
//! aliasing and ids, keyframe lookup over transform tracks, triangle
//! mesh face records, the raster-order work split and the ASCII PPM
//! image format that the render pipeline writes.

pub mod bvh;
pub mod camera;
pub mod id_vendor;
pub mod obj;
pub mod pipeline;
pub mod ppm;
pub mod scene;
pub mod timeline;
