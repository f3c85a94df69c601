//! Microphone capture core: the session lifecycle, the framing of device
//! callbacks, the quantisation of normalised samples and the WAV container
//! that a finished recording is delivered in.
//!
//! Everything here is free of I/O. The surrounding program opens the device,
//! runs the capture thread and reports what happened; this crate decides what
//! each outcome means and produces the bytes.

pub mod device;
pub mod error;
pub mod frames;
pub mod quantize;
pub mod session;
pub mod wav;

pub use error::CaptureError;
pub mod single;
pub mod normalize;
