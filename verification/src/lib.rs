//! G.711 A-law companding: 16-bit linear PCM samples to 8-bit code words and back.
//!
//! [`encode`] and [`decode`] are total, stateless functions on fixed-width
//! integers. Their contracts are stated over the arithmetic model in
//! [`format`]; [`laws`] proves what holds of the two together.

pub mod format;
pub mod encoder;
pub mod decoder;
pub mod laws;

pub use crate::decoder::decode;
pub use crate::encoder::encode;
