//! A layered secure message channel and a dual, hash-seeded random generator
//! for a small embedded controller.
//!
//! The channel stack turns a byte stream into length-delimited frames and
//! protects each frame with XChaCha20-Poly1305. The random subsystem condenses
//! several weak entropy samples into two seeds and runs one ChaCha20 generator
//! from each.

pub mod communication;
pub mod framing;
pub mod entropy;
pub mod random;
pub mod crypto;
pub mod secure_uart;
