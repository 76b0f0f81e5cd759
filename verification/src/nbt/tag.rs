//! The kinds of NBT tags.

use vstd::prelude::*;

verus! {

/// The kinds of NBT tags that contain other values.
#[derive(Debug, Clone, Copy, PartialEq, Eq, PartialOrd, Ord, Hash, Structural)]
pub enum NbtContainerType {
    Compound,
    List,
    ByteArray,
    IntArray,
    LongArray,
}

/// The kinds of NBT tags.
#[derive(Debug, Clone, Copy, PartialEq, Eq, PartialOrd, Ord, Hash, Structural)]
pub enum NbtType {
    Byte,
    Short,
    Int,
    Long,
    Float,
    Double,
    ByteArray,
    String,
    List,
    Compound,
    IntArray,
    LongArray,
}

} // verus!
