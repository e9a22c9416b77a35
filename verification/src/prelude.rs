//! The names that most callers need.

pub use crate::components::{ClosedStream, VideoDecoder};
pub use crate::frame::VideoFrame;
pub use crate::store::SurfaceStore;
pub use crate::systems::apply_decode;
