//! A fixed-length digest identifier for overlay-network entities: an
//! immutable 32-byte value with byte-exact equality, a zero default, safe
//! construction from raw bytes, and a canonical unpadded base64 textual
//! form, together with the `Hashable` capability of naming a value by such
//! a digest.

pub mod base64;
pub mod i2p_hash;

pub use crate::i2p_hash::Hashable;
pub use crate::i2p_hash::I2pHash;
pub use crate::i2p_hash::I2pHashError;
