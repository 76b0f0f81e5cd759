//! NBT settings, errors and the kinds of tags.

pub mod ordered_map;
pub mod raw;
pub mod repr;
pub mod settings;
pub mod tag;
