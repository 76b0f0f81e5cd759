//! NBT encoding options, nesting limits, representation errors and SNBT helpers, with a
//! network little-endian encoding.

pub mod encoding;
pub mod limits;
pub mod repr;
pub mod snbt;
