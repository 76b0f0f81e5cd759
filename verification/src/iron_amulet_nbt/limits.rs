//! The limit on how deeply NBT lists and compounds may be nested.

use vstd::prelude::*;

verus! {

/// The recursive NBT tags (Compounds and Lists)
/// can be nested up to (and including) 512 levels deep in the standard specification.
/// The limit may be increased here, but note that if it is too high and unreasonably nested
/// data is received, a crash could occur from the nested function calls exceeding the maximum
/// stack size.
#[derive(Debug, Clone, Copy, PartialEq, Eq, Structural)]
pub struct DepthLimit(pub u32);

impl Default for DepthLimit {
    /// The maximum depth that NBT compounds and tags can be nested in the standard Minecraft
    /// specification: 512.
    fn default() -> (res: Self)
        ensures
            res.0 == 512,
    {
        DepthLimit(512)
    }
}

} // verus!
