//! Verified core of an interactive 2D card-canvas editor.
//!
//! All geometry is carried in signed 64-bit fixed-point values with a
//! decimal scale of one million, so that the camera transform, the pointer
//! interaction state machine and the render-buffer bookkeeping can be
//! verified exactly. The surrounding GPU / window shell converts between
//! these fixed-point values and the `f32` data it hands to the graphics
//! backend.

pub mod fixed;
pub mod types;
pub mod camera;
pub mod buffer;
pub mod panels;
pub mod engine;
