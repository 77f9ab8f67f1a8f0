//! A verified model of a renderer's post-processing pipeline: an ordered
//! chain of full-screen mask effects applied per camera each frame.
//!
//! The frame is staged as Extract -> Prepare -> Queue -> Render:
//! [`extract`] snapshots effect instances of active cameras, [`cache`]
//! compiles and caches one specialized pipeline per mask variant,
//! [`uniforms`] packs per-instance parameters into one buffer per frame and
//! builds the frame's bind group, [`phase`] builds per-camera queues of draw
//! items sorted by order, and [`executor`] turns a sorted queue into draw
//! commands over a ping-pong target pair. [`frame`] ties the stages together.
//!
//! GPU handles (textures, pipelines, bind groups, draw functions) are carried
//! as plain identifiers; effect parameters are carried as the bit patterns of
//! the single-precision values the shaders consume, so packing and read-back
//! are exact.

pub mod bytes;
pub mod cache;
pub mod executor;
pub mod extract;
pub mod frame;
pub mod mask;
pub mod phase;
pub mod uniforms;
