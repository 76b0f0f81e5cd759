//! The kinds of functions in a mapping file, and the indices into NBT that they use.

use vstd::prelude::*;

verus! {

/// An index into an NBT compound (a key) or into an NBT list or array (a position).
#[derive(Debug, Clone)]
pub enum Index {
    String(Box<str>),
    Number(usize),
}

/// The kinds of mapping functions.
#[derive(Debug, Clone, Copy, PartialEq, Eq, Structural)]
pub enum MappingFunctionType {
    NewBlock,
    NewNbt,
    NewProperties,
    MapBlockName,
    MapNbt,
    MapProperties,
    CarryNbt,
    CarryProperties,
    Code,
    Multiblock,
    WalkInputNbt,
}

} // verus!
