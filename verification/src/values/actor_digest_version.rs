//! The format versions of actor digests.

use vstd::prelude::*;

verus! {

/// The format version of an actor digest.
#[derive(Debug, Clone, Copy, PartialEq, Eq, Structural)]
pub enum ActorDigestVersion {
    V1_18_30,
}

impl From<ActorDigestVersion> for u8 {
    fn from(value: ActorDigestVersion) -> (res: u8) {
        match value {
            ActorDigestVersion::V1_18_30 => 0,
        }
    }
}

impl vstd::std_specs::convert::FromSpecImpl<ActorDigestVersion> for u8 {
    open spec fn obeys_from_spec() -> bool {
        true
    }

    open spec fn from_spec(value: ActorDigestVersion) -> u8 {
        0
    }
}

impl TryFrom<u8> for ActorDigestVersion {
    type Error = ();

    fn try_from(value: u8) -> (res: Result<Self, ()>) {
        if value == 0 {
            Ok(ActorDigestVersion::V1_18_30)
        } else {
            Err(())
        }
    }
}

impl vstd::std_specs::convert::TryFromSpecImpl<u8> for ActorDigestVersion {
    open spec fn obeys_try_from_spec() -> bool {
        true
    }

    open spec fn try_from_spec(value: u8) -> Result<ActorDigestVersion, ()> {
        if value == 0 {
            Ok(ActorDigestVersion::V1_18_30)
        } else {
            Err(())
        }
    }
}


/// The only actor digest version, that of 1.18.30, is written as the byte 0, and no other byte is
/// read as a version.
pub proof fn lemma_actor_digest_version_numbering()
    ensures
        <u8 as vstd::std_specs::convert::FromSpec<ActorDigestVersion>>::from_spec(ActorDigestVersion::V1_18_30) == 0u8,
        <ActorDigestVersion as vstd::std_specs::convert::TryFromSpec<u8>>::try_from_spec(0u8) == Ok::<ActorDigestVersion, ()>(ActorDigestVersion::V1_18_30),
        forall|v: u8| v != 0 ==> #[trigger] <ActorDigestVersion as vstd::std_specs::convert::TryFromSpec<u8>>::try_from_spec(v) is Err,
{
}

} // verus!
