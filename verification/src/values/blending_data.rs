//! Data about the blending of old chunks with newly generated ones.

use vstd::prelude::*;

use crate::bytes::{extend_u16_le, spec_u16_from_le, spec_u16_le_bytes, u16_from_le};

verus! {

/// Data about the blending of old chunks with newly generated ones.
#[derive(Debug, Clone, Copy, PartialEq, Eq)]
pub enum BlendingData {
    Zero,
    Version { version: u8 },
    VersionAndData { version: u8, i16_data: [Option<i16>; 16], i8_data: i8 },
}

/// The `i16` whose little-endian bytes are at `2 + 2 * k` in `value`, or `None` where it is
/// `i16::MAX`.
pub open spec fn spec_blending_entry(value: Seq<u8>, k: int) -> Option<i16> {
    let entry = spec_u16_from_le(value[2 + 2 * k], value[3 + 2 * k]) as i16;
    if entry == i16::MAX {
        None
    } else {
        Some(entry)
    }
}

/// The bytes written for the entries: each as a little-endian `i16`, `i16::MAX` for `None`.
pub open spec fn spec_blending_entries_bytes(entries: Seq<Option<i16>>) -> Seq<u8>
    decreases entries.len(),
{
    if entries.len() == 0 {
        Seq::empty()
    } else {
        let last = match entries.last() {
            Some(x) => x,
            None => i16::MAX,
        };
        spec_blending_entries_bytes(entries.drop_last()) + spec_u16_le_bytes(last as u16)
    }
}

/// Whether `res` is what `BlendingData::parse` gives for `value`.
pub open spec fn spec_parse_result(value: Seq<u8>, res: Option<BlendingData>) -> bool {
    if value.len() == 35 && value[0] == 1 {
        res matches Some(BlendingData::VersionAndData { version, i16_data, i8_data }) && version
            == value[1] && i8_data == value[34] as i8 && forall|k: int|
            0 <= k < 16 ==> #[trigger] i16_data@[k] == spec_blending_entry(value, k)
    } else if value.len() == 1 && value[0] == 0 {
        res == Some(BlendingData::Zero)
    } else if value.len() == 2 && value[0] == 0 {
        res == Some(BlendingData::Version { version: value[1] })
    } else {
        res is None
    }
}

impl BlendingData {
    /// Read blending data: `[0]`, `[0, version]`, or `1`, the version, 16 little-endian
    /// `i16`s (`i16::MAX` standing for none) and an `i8`.
    pub fn parse(value: &[u8]) -> (res: Option<Self>)
        ensures
            spec_parse_result(value@, res),
    {
        if value.len() < 1 {
            return None;
        }
        if value[0] == 0 {
            if value.len() == 1 {
                Some(BlendingData::Zero)
            } else if value.len() == 2 {
                Some(BlendingData::Version { version: value[1] })
            } else {
                None
            }
        } else if value[0] == 1 {
            if value.len() == 35 {
                let version = value[1];
                let i8_data = value[34] as i8;
                let mut i16_data: [Option<i16>; 16] = [None; 16];
                let mut k: usize = 0;
                while k < 16
                    invariant
                        value@.len() == 35,
                        k <= 16,
                        forall|j: int| 0 <= j < k ==> #[trigger] i16_data@[j] == spec_blending_entry(value@, j),
                    decreases 16 - k,
                {
                    let entry = u16_from_le(value[2 + 2 * k], value[3 + 2 * k]) as i16;
                    i16_data[k] = if entry == 0x7FFF {
                        None
                    } else {
                        Some(entry)
                    };
                    k = k + 1;
                }
                Some(BlendingData::VersionAndData { version, i16_data, i8_data })
            } else {
                None
            }
        } else {
            None
        }
    }

    /// The bytes of this blending data.
    pub open spec fn spec_bytes(self) -> Seq<u8> {
        match self {
            BlendingData::Zero => seq![0u8],
            BlendingData::Version { version } => seq![0u8, version],
            BlendingData::VersionAndData { version, i16_data, i8_data } => seq![1u8, version]
                + spec_blending_entries_bytes(i16_data@) + seq![i8_data as u8],
        }
    }

    pub fn extend_serialized(&self, bytes: &mut Vec<u8>)
        ensures
            final(bytes)@ == old(bytes)@ + self.spec_bytes(),
    {
        match self {
            BlendingData::Zero => {
                bytes.push(0);
            },
            BlendingData::Version { version } => {
                bytes.push(0);
                bytes.push(*version);
            },
            BlendingData::VersionAndData { version, i16_data, i8_data } => {
                bytes.push(1);
                bytes.push(*version);
                let ghost start = bytes@;
                let mut k: usize = 0;
                while k < 16
                    invariant
                        k <= 16,
                        i16_data@.len() == 16,
                        bytes@ == start + spec_blending_entries_bytes(i16_data@.take(k as int)),
                    decreases 16 - k,
                {
                    let entry: i16 = match i16_data[k] {
                        Some(x) => x,
                        None => 0x7FFF,
                    };
                    assert(i16_data@.take(k + 1).drop_last() =~= i16_data@.take(k as int));
                    extend_u16_le(bytes, entry as u16);
                    k = k + 1;
                }
                assert(i16_data@.take(16) =~= i16_data@);
                bytes.push(*i8_data as u8);
            },
        }
        assert(bytes@ =~= old(bytes)@ + self.spec_bytes());
    }

    pub fn to_bytes(self) -> (res: Vec<u8>)
        ensures
            res@ == self.spec_bytes(),
    {
        let mut bytes: Vec<u8> = Vec::new();
        self.extend_serialized(&mut bytes);
        assert(bytes@ =~= self.spec_bytes());
        bytes
    }
}

proof fn lemma_blending_entries_bytes(entries: Seq<Option<i16>>)
    ensures
        spec_blending_entries_bytes(entries).len() == 2 * entries.len(),
        forall|k: int|
            0 <= k < entries.len() ==> {
                let b = spec_blending_entries_bytes(entries);
                let x = match #[trigger] entries[k] {
                    Some(x) => x,
                    None => i16::MAX,
                };
                b[2 * k] == spec_u16_le_bytes(x as u16)[0] && b[2 * k + 1] == spec_u16_le_bytes(
                    x as u16,
                )[1]
            },
    decreases entries.len(),
{
    if entries.len() > 0 {
        lemma_blending_entries_bytes(entries.drop_last());
        assert forall|k: int| 0 <= k < entries.len() - 1 implies #[trigger] entries[k]
            == entries.drop_last()[k] by {}
    }
}

/// Parsing the bytes of blending data gives it back, unless an entry is `Some(i16::MAX)`
/// (which is written as, and so read back as, `None`).
pub proof fn lemma_blending_data_roundtrip(data: BlendingData)
    requires
        data matches BlendingData::VersionAndData { i16_data, .. } ==> forall|k: int|
            0 <= k < 16 ==> #[trigger] i16_data@[k] != Some(i16::MAX),
    ensures
        spec_parse_result(data.spec_bytes(), Some(data)),
{
    if let BlendingData::VersionAndData { version, i16_data, i8_data } = data {
        let b = data.spec_bytes();
        lemma_blending_entries_bytes(i16_data@);
        assert forall|k: int| 0 <= k < 16 implies #[trigger] i16_data@[k] == spec_blending_entry(
            b,
            k,
        ) by {
            let x = match i16_data@[k] {
                Some(x) => x,
                None => i16::MAX,
            };
            crate::bytes::lemma_u16_le_roundtrip(x as u16);
            assert(b[2 + 2 * k] == spec_blending_entries_bytes(i16_data@)[2 * k]);
            assert(b[3 + 2 * k] == spec_blending_entries_bytes(i16_data@)[2 * k + 1]);
            assert(((x as u16) as i16) == x) by (bit_vector);
        }
        assert(b.len() == 35);
        assert(b[0] == 1 && b[1] == version);
        assert(b[34] == i8_data as u8);
        assert(((i8_data as u8) as i8) == i8_data) by (bit_vector);
    } else {
        assert(data.spec_bytes().len() <= 2);
    }
}

} // verus!
