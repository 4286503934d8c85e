//! The bridge between the control thread, which computes new effect
//! parameters at its own pace, and the render thread, which applies them at
//! block boundaries.

pub mod builder;
pub mod command;
pub mod effect;
pub mod handle;
pub mod queue;
