//! Band-limited waveform synthesis and block loudness estimation.
//!
//! The oscillator keeps an integer phase counter and, for each tick, selects
//! the exact set of harmonics that stay below the Nyquist limit; the terms it
//! emits are evaluated to audio samples by the surrounding program. A second,
//! independent component estimates the loudness (root mean square) of a
//! captured block of fixed-point samples, and a small scheduler switches the
//! active waveform on fixed time windows.

pub mod device;
pub mod frames;
pub mod oscillator;
pub mod rms;
pub mod scheduler;
