//! Data about the translation data of the game versions.

pub mod code_functions;
pub mod headers;
pub mod mappings;
