//! NBT input and output options with Gz compression and two endiannesses, NBT tags, and
//! reading and writing binary NBT.

pub mod io;
pub mod tag;
