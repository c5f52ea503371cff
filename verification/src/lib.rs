//! A keyed, non-cryptographic hash producing 64-, 128- or 256-bit digests
//! from an arbitrary byte sequence and a fixed 256-bit key, in a one-shot
//! form and in a streaming form proved to agree with it.
pub mod highwayhash;
pub mod model;

pub use highwayhash::{highway_hash128, highway_hash256, highway_hash64, HighwayHashCat, HighwayHashState};
pub use model::MixState;

