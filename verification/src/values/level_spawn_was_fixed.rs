//! Whether the spawn point of a level was fixed, stored as the text `True` or `False`.

use vstd::prelude::*;

use crate::bytes::extend_bytes;

verus! {

/// Whether the spawn point of a level was fixed.
#[derive(Debug, Clone, Copy, PartialEq, Eq, Structural)]
pub struct LevelSpawnWasFixed(pub bool);

/// The bytes of the text `True`.
pub open spec fn spec_true_bytes() -> Seq<u8> {
    seq![0x54u8, 0x72u8, 0x75u8, 0x65u8]
}

/// The bytes of the text `False`.
pub open spec fn spec_false_bytes() -> Seq<u8> {
    seq![0x46u8, 0x61u8, 0x6Cu8, 0x73u8, 0x65u8]
}

/// Whether two byte slices are equal.
fn bytes_equal(a: &[u8], b: &[u8]) -> (res: bool)
    ensures
        res == (a@ == b@),
{
    if a.len() != b.len() {
        return false;
    }
    let mut i: usize = 0;
    while i < a.len()
        invariant
            a@.len() == b@.len(),
            i <= a@.len(),
            forall|j: int| 0 <= j < i ==> a@[j] == b@[j],
        decreases a@.len() - i,
    {
        if a[i] != b[i] {
            return false;
        }
        i = i + 1;
    }
    assert(a@ =~= b@);
    true
}

impl LevelSpawnWasFixed {
    /// The bytes that stand for this value.
    pub open spec fn spec_bytes(self) -> Seq<u8> {
        if self.0 {
            spec_true_bytes()
        } else {
            spec_false_bytes()
        }
    }

    /// Read `True` or `False`; anything else is `None`.
    pub fn parse(value: &[u8]) -> (res: Option<Self>)
        ensures
            res == (if value@ == spec_true_bytes() {
                Some(LevelSpawnWasFixed(true))
            } else if value@ == spec_false_bytes() {
                Some(LevelSpawnWasFixed(false))
            } else {
                None
            }),
    {
        let true_bytes: [u8; 4] = [0x54, 0x72, 0x75, 0x65];
        let false_bytes: [u8; 5] = [0x46, 0x61, 0x6C, 0x73, 0x65];
        assert(true_bytes@ =~= spec_true_bytes());
        assert(false_bytes@ =~= spec_false_bytes());
        if bytes_equal(value, &true_bytes) {
            Some(LevelSpawnWasFixed(true))
        } else if bytes_equal(value, &false_bytes) {
            Some(LevelSpawnWasFixed(false))
        } else {
            None
        }
    }

    /// Append `True` or `False`.
    pub fn extend_serialized(&self, bytes: &mut Vec<u8>)
        ensures
            final(bytes)@ == old(bytes)@ + self.spec_bytes(),
    {
        if self.0 {
            let true_bytes: [u8; 4] = [0x54, 0x72, 0x75, 0x65];
            assert(true_bytes@ =~= spec_true_bytes());
            extend_bytes(bytes, &true_bytes);
        } else {
            let false_bytes: [u8; 5] = [0x46, 0x61, 0x6C, 0x73, 0x65];
            assert(false_bytes@ =~= spec_false_bytes());
            extend_bytes(bytes, &false_bytes);
        }
    }

    /// `True` or `False`.
    pub fn to_bytes(&self) -> (res: Vec<u8>)
        ensures
            res@ == self.spec_bytes(),
    {
        let mut bytes: Vec<u8> = Vec::new();
        self.extend_serialized(&mut bytes);
        assert(bytes@ =~= self.spec_bytes());
        bytes
    }
}

} // verus!
