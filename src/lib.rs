//! GPU resource bookkeeping and ray-tracing layout logic: alignment,
//! shader binding table layout and bytes, acceleration-structure build
//! planning, typed buffer records and allocator books, the frame-cycled
//! deferred destruction ring, and the publish stage of the asset pipeline.

pub mod accel;
pub mod align;
pub mod assets;
pub mod bindless;
pub mod books;
pub mod buffer;
pub mod destruction;
pub mod device;
pub mod frames;
pub mod geometry;
pub mod loaders;
pub mod present;
pub mod sbt;
pub mod scene;
pub mod table_bytes;
pub mod texture;

pub use align::aligned_size;
pub use loaders::{GltfLoader, Shader};
pub use texture::padd_pixel_bytes_rgba_unorm;
