//! Verified core of an FM radio transmit/receive pipeline.
//!
//! The signal path converts between mono audio and a frequency-modulated
//! complex-sample stream.  Everything that can be stated over integers and
//! plain values is verified here: rate-ratio configuration, decimation,
//! filter-state bookkeeping, the modulator's interpolation window and
//! progress accounting, and the error tables of the radio driver.  The
//! floating-point kernels (phasor synthesis, filter blending, the
//! discriminator) are supplied by the caller as closures or live in the
//! unverified driver layer around this crate.

pub mod args;
pub mod demodulate;
pub mod device;
pub mod error;
pub mod lowpass;
pub mod mixer;
pub mod modulate;
pub mod rate;
pub mod serial;
