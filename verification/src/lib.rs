//! Integer-level core of an analog-modeled distortion effect.
//!
//! The audio path of the effect is single-precision floating-point signal
//! processing and lives outside this library.  What is verified here is the
//! discrete logic that path depends on: identifying and enumerating the
//! runtime controls, the 12-byte persisted layout of the three control
//! values, and the sanitization of the precomputed diode-clipper table.
//! Wherever a 32-bit float crosses into this library it is carried as its
//! raw IEEE-754 bit pattern in a `u32`, so that every statement made about
//! it is a statement about plain integers.

pub mod clip;
pub mod parameters;
