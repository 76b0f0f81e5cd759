//! The compression level of the `flate2` crate, as used by the NBT settings.

use vstd::prelude::*;

use flate2::Compression;

verus! {

/// The `flate2` compression level type.
#[verifier::external_type_specification]
#[verifier::external_body]
pub struct ExCompression(Compression);

/// The level held by a `flate2::Compression`.
pub uninterp spec fn flate2_level(c: Compression) -> u32;

/// The `flate2::Compression` made with a given level.
pub uninterp spec fn flate2_compression(level: u32) -> Compression;

/// `flate2::Compression::new`: the compression made with the given level, which holds
/// exactly that level.
#[verifier::external_body]
pub(crate) fn compression_new(level: u32) -> (res: Compression)
    ensures
        res == flate2_compression(level),
        flate2_level(res) == level,
{
    Compression::new(level)
}

/// `Compression::default()` of `flate2`: the compression with level 6.
#[verifier::external_body]
pub(crate) fn compression_default() -> (res: Compression)
    ensures
        res == flate2_compression(6),
        flate2_level(res) == 6,
{
    Compression::default()
}

/// `flate2::Compression::level`: the level that the compression was made with.
#[verifier::external_body]
pub(crate) fn compression_level(c: &Compression) -> (res: u32)
    ensures
        res == flate2_level(*c),
{
    c.level()
}

} // verus!
