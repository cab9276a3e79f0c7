//! A deterministic "prime hash": a byte string is mapped, through SHA3-256
//! and a counter, to the first odd 32-bit candidate that is prime.

pub mod message;
pub mod primality;
pub mod prime_hasher;

pub use prime_hasher::PrimeHasher;
