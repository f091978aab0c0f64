//! A self-describing digest format: one text that names the algorithm, gives the
//! byte length of the digest and carries the digest itself in hexadecimal.

pub mod decimal;
pub mod digest;
pub mod fingerprint;
pub mod handle;
pub mod hex;
pub mod laws;
pub mod primitives;
pub mod text;
pub mod types;
pub mod wire;

pub use digest::InternalDispnetHash;
pub use handle::DispnetHash;
pub use types::{HashConfig, HashError, HashType};
