//! Host-side core of a low-latency screen-mirroring pipeline.
//!
//! The crate holds the verified logic of the pipeline: the framed packet
//! parsers and the receiver's connection state machine, the Annex-B
//! NAL-unit splitter and the decoder-recovery state machine around the
//! H.264 decoder, the single-slot latest-wins frame buffer, the
//! control-command encoder, the input mapper, the renderer geometry, and
//! the audio sample path.

pub mod audio;
pub mod bytes;
pub mod config;
pub mod control;
pub mod decoder;
pub mod frame;
pub mod input;
pub mod nal;
pub mod pipeline;
pub mod render;
pub mod screenshot;
pub mod wire;
