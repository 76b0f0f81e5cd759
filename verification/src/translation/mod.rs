//! Data types shared by translations between Minecraft versions.

pub mod datatypes;
pub mod version_order;
