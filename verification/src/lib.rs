//! Three-bit packing of short nucleotide sequences (k-mers) into 64-bit codes.
//!
//! A k-mer of at most 21 symbols over `A`, `C`, `G`, `T`, `N` is packed into a
//! `u64`, three bits per symbol, the first symbol in the most significant
//! occupied group. Every executable function carries a contract over the
//! mathematical model in [`alphabet`] and [`packing`], and Verus proves it.

pub mod alphabet;
pub mod bits;
pub mod canonical;
pub mod encode;
pub mod error;
pub mod generate;
pub mod lanes;
pub mod packing;
pub mod strand;
