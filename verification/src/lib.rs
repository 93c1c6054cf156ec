//! A terminal audio level meter: the verified core of a capture-to-display
//! pipeline.
//!
//! Audio amplitudes enter as loudness values in hundredths of a decibel
//! (centi-dB); the library maps them onto a fixed-width perceptual scale,
//! keeps peak-hold meter state, buffers samples for a spectrum view, and
//! rasterizes intensity columns into Braille dot-matrix glyphs.

pub mod bridge;
pub mod canvas;
pub mod meter;
pub mod scale;
pub mod session;
pub mod spectrum;
