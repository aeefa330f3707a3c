//! Hashing interfaces for Merkle commitments and replication encodings.
//!
//! Three interfaces, each built on the one before: [`Domain`], the value
//! that a hash produces; [`HashFunction`], an algorithm from bytes to such
//! values, natively and as a circuit assigns it; and [`Hasher`], which binds
//! the two and adds a key derivation and a sequential delay encoding. Their
//! laws are proved for every implementation; [`Fp61Hasher`] is a small one.
pub mod bits;
pub mod domain;
pub mod encoding;
pub mod error;
pub mod fp61;
pub mod hash_function;
pub mod hasher;

pub use domain::Domain;
pub use error::Error;
pub use fp61::{Fp61, Fp61Function, Fp61Hasher};
pub use hash_function::{HashFunction, Hashable};
pub use hasher::Hasher;
