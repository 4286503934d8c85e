//! The containers and the control-to-render bridge of a spatial-audio
//! engine, with machine-checked contracts.
//!
//! [`audio_buffer`] holds the fixed-shape multichannel buffer and its
//! elementwise operations, [`interleaving`] the flat layout that hosts
//! exchange with it, and [`laws`] what those operations inherit from the
//! arithmetic of the sample type. [`direct_effect`] holds the bounded command
//! queue between the control thread and the render thread, and the two sides
//! of an effect that talk through it.

pub mod audio_buffer;
pub mod direct_effect;
pub mod interleaving;
pub mod laws;
