//! BLS signatures over BLS12-381: secret keys, the plain and the
//! rogue-key resistant signing operations, and their verification.
pub mod curve;
pub mod field;
pub mod keys;

pub use keys::{PublicKey, SecretKey, Signature};
