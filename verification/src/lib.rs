//! A verified toolkit for Minecraft worlds: NBT tags, settings, errors, binary numbers, and the
//! reading and writing of binary NBT; pieces of the SNBT lexer (escape sequences and UUIDs); the
//! values stored in Bedrock Edition LevelDB worlds, with their parsers and serializers; the
//! compression settings of such a LevelDB; and the data types of block translation between game
//! versions.

pub mod bytes;
pub mod compression;
pub mod entries;
pub mod iron_amulet_nbt;
pub mod iron_nbt;
pub mod leveldb;
pub mod nbt;
pub mod text;
pub mod translation;
pub mod translators;
pub mod values;
