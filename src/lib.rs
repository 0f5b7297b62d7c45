//! Draw-batch aggregation and indirect dispatch for rendering many
//! independently generated meshes in one frame.
//!
//! Meshes are packed into shared vertex, index and instance buffers by
//! [`batch::Batch`], one indirect draw record per object is kept in packing
//! order, and [`dispatch::DrawDispatcher`] turns the batch into the render
//! steps of a frame, either as one aggregated multi-draw call or as one call
//! per record.
mod command;
pub mod batch;
pub mod dispatch;
pub mod frame;

pub use command::{DrawCommand, COMMAND_SIZE, COMMAND_WORDS, encode_commands};
