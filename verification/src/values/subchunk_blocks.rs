//! The blocks of a subchunk in the legacy format, with optional sky light and block light.

use vstd::prelude::*;

use crate::bytes::extend_bytes;

verus! {

/// The blocks of a subchunk in the legacy format.
#[derive(Debug, Clone, PartialEq, Eq)]
pub struct LegacySubchunkBlocks {
    /// Version of the chunk, which in this case is either `0` or in `2..=7`.
    pub version: u8,
    /// All block IDs in this subchunk, in YZX order (Y increments first).
    pub block_ids: [u8; 4096],
    /// All block data for this subchunk, with 4 bits per block,
    /// in YZX order (Y increments first).
    pub packed_block_data: [u8; 2048],
    /// All skylight values for this subchunk, with 4 bits per block,
    /// in YZX order (Y increments first). Optional.
    pub skylight: Option<[u8; 2048]>,
    /// All blocklight values for this subchunk, with 4 bits per block,
    /// in YZX order (Y increments first). Optional.
    pub blocklight: Option<[u8; 2048]>,
}

/// Whether `version` is a version of the legacy subchunk format: 0 or 2 to 7.
pub open spec fn spec_legacy_subchunk_version(version: u8) -> bool {
    version == 0 || (2 <= version <= 7)
}

/// The 2048 zero bytes written for missing sky light when there is block light.
pub open spec fn spec_no_light() -> Seq<u8> {
    Seq::new(2048, |i: int| 0u8)
}

/// Copy 4096 bytes of `value` from `start` into an array.
fn array4096_at(value: &[u8], start: usize) -> (res: [u8; 4096])
    requires
        start + 4096 <= value@.len(),
    ensures
        res@ == value@.subrange(start as int, start + 4096),
{
    let mut out: [u8; 4096] = [0; 4096];
    let mut j: usize = 0;
    while j < 4096
        invariant
            start + 4096 <= value.len(),
            j <= 4096,
            forall|k: int| 0 <= k < j ==> out@[k] == value@[start + k],
        decreases 4096 - j,
    {
        out[j] = value[start + j];
        j = j + 1;
    }
    assert(out@ =~= value@.subrange(start as int, start + 4096));
    out
}

/// Copy 2048 bytes of `value` from `start` into an array.
fn array2048_at(value: &[u8], start: usize) -> (res: [u8; 2048])
    requires
        start + 2048 <= value@.len(),
    ensures
        res@ == value@.subrange(start as int, start + 2048),
{
    let mut out: [u8; 2048] = [0; 2048];
    let mut j: usize = 0;
    while j < 2048
        invariant
            start + 2048 <= value.len(),
            j <= 2048,
            forall|k: int| 0 <= k < j ==> out@[k] == value@[start + k],
        decreases 2048 - j,
    {
        out[j] = value[start + j];
        j = j + 1;
    }
    assert(out@ =~= value@.subrange(start as int, start + 2048));
    out
}

impl LegacySubchunkBlocks {
    /// Whether `res` is what `parse` gives for `value`: the version byte, 4096 block IDs and
    /// 2048 bytes of block data, and then nothing, 2048 bytes of sky light, or those and 2048
    /// bytes of block light; `None` for any other length or another version.
    pub open spec fn spec_parse_result(value: Seq<u8>, res: Option<LegacySubchunkBlocks>) -> bool {
        let len = value.len();
        if !(len == 6145 || len == 8193 || len == 10241) || !spec_legacy_subchunk_version(
            value[0],
        ) {
            res is None
        } else {
            res matches Some(b) && b.version == value[0] && b.block_ids@ == value.subrange(1, 4097)
                && b.packed_block_data@ == value.subrange(4097, 6145) && (if len >= 8193 {
                b.skylight matches Some(s) && s@ == value.subrange(6145, 8193)
            } else {
                b.skylight is None
            }) && (if len == 10241 {
                b.blocklight matches Some(l) && l@ == value.subrange(8193, 10241)
            } else {
                b.blocklight is None
            })
        }
    }

    pub fn parse(value: &[u8]) -> (res: Option<Self>)
        ensures
            Self::spec_parse_result(value@, res),
    {
        let len = value.len();
        let (skylight, blocklight) = if len == 6145 {
            (false, false)
        } else if len == 8193 {
            (true, false)
        } else if len == 10241 {
            (true, true)
        } else {
            return None;
        };
        let version = value[0];
        if !(version == 0 || (2 <= version && version <= 7)) {
            return None;
        }
        let block_ids = array4096_at(value, 1);
        let packed_block_data = array2048_at(value, 4097);
        if !skylight {
            return Some(
                LegacySubchunkBlocks {
                    version,
                    block_ids,
                    packed_block_data,
                    skylight: None,
                    blocklight: None,
                },
            );
        }
        let sky = array2048_at(value, 6145);
        if !blocklight {
            return Some(
                LegacySubchunkBlocks {
                    version,
                    block_ids,
                    packed_block_data,
                    skylight: Some(sky),
                    blocklight: None,
                },
            );
        }
        let block = array2048_at(value, 8193);
        Some(
            LegacySubchunkBlocks {
                version,
                block_ids,
                packed_block_data,
                skylight: Some(sky),
                blocklight: Some(block),
            },
        )
    }

    /// The bytes of these blocks: the version, the block IDs and data, and then, where there is
    /// block light, the sky light (zeros where there is none) and the block light, or else the
    /// sky light if there is any.
    pub open spec fn spec_bytes(&self) -> Seq<u8> {
        let base = seq![self.version] + self.block_ids@ + self.packed_block_data@;
        match self.blocklight {
            Some(l) => base + match self.skylight {
                Some(s) => s@,
                None => spec_no_light(),
            } + l@,
            None => match self.skylight {
                Some(s) => base + s@,
                None => base,
            },
        }
    }

    pub fn extend_serialized(&self, bytes: &mut Vec<u8>)
        ensures
            final(bytes)@ == old(bytes)@ + self.spec_bytes(),
    {
        bytes.push(self.version);
        extend_bytes(bytes, &self.block_ids);
        extend_bytes(bytes, &self.packed_block_data);
        match &self.blocklight {
            Some(blocklight) => {
                match &self.skylight {
                    Some(skylight) => {
                        extend_bytes(bytes, skylight);
                    },
                    None => {
                        let zeros: [u8; 2048] = [0; 2048];
                        assert(zeros@ =~= spec_no_light());
                        extend_bytes(bytes, &zeros);
                    },
                }
                extend_bytes(bytes, blocklight);
            },
            None => match &self.skylight {
                Some(skylight) => {
                    extend_bytes(bytes, skylight);
                },
                None => {},
            },
        }
        assert(bytes@ =~= old(bytes)@ + self.spec_bytes());
    }

    pub fn to_bytes(&self) -> (res: Vec<u8>)
        ensures
            res@ == self.spec_bytes(),
    {
        let mut bytes: Vec<u8> = Vec::new();
        self.extend_serialized(&mut bytes);
        assert(bytes@ =~= self.spec_bytes());
        bytes
    }
}

/// Parsing the bytes of legacy subchunk blocks gives them back, where the version is one of the
/// format and there is no block light without sky light (whose missing sky light is written as
/// zeros, and so read back as zeros).
pub proof fn lemma_legacy_subchunk_blocks_roundtrip(b: LegacySubchunkBlocks)
    requires
        spec_legacy_subchunk_version(b.version),
        b.blocklight is Some ==> b.skylight is Some,
    ensures
        LegacySubchunkBlocks::spec_parse_result(b.spec_bytes(), Some(b)),
{
    let v = b.spec_bytes();
    let base = seq![b.version] + b.block_ids@ + b.packed_block_data@;
    assert(base.len() == 6145);
    assert(v.subrange(1, 4097) =~= b.block_ids@);
    assert(v.subrange(4097, 6145) =~= b.packed_block_data@);
    match b.skylight {
        Some(s) => {
            assert(v.subrange(6145, 8193) =~= s@);
            match b.blocklight {
                Some(l) => {
                    assert(v.subrange(8193, 10241) =~= l@);
                },
                None => {},
            }
        },
        None => {},
    }
}

} // verus!
