use crate::codec::{decoded_path, lemma_codec_round_trip, path_bytes};
use crate::junction::Junction;
use crate::multi_location::MultiLocation;
use vstd::prelude::*;
use vstd::slice::{slice_index_get, slice_subrange};

verus! {

/// A version-tagged envelope around a path: the sole interface through which
/// paths are persisted or transmitted across format-version boundaries.
#[derive(Clone, Copy, PartialEq, Eq, Structural, Debug)]
pub enum VersionedMultiLocation {
    V0(MultiLocation),
}

impl From<MultiLocation> for VersionedMultiLocation {
    fn from(x: MultiLocation) -> (r: Self) {
        VersionedMultiLocation::V0(x)
    }
}

impl vstd::std_specs::convert::FromSpecImpl<MultiLocation> for VersionedMultiLocation {
    open spec fn obeys_from_spec() -> bool {
        true
    }

    open spec fn from_spec(x: MultiLocation) -> Self {
        VersionedMultiLocation::V0(x)
    }
}

impl TryFrom<VersionedMultiLocation> for MultiLocation {
    type Error = ();

    fn try_from(x: VersionedMultiLocation) -> (r: Result<Self, ()>) {
        match x {
            VersionedMultiLocation::V0(m) => Ok(m),
        }
    }
}

impl vstd::std_specs::convert::TryFromSpecImpl<VersionedMultiLocation> for MultiLocation {
    open spec fn obeys_try_from_spec() -> bool {
        true
    }

    open spec fn try_from_spec(x: VersionedMultiLocation) -> Result<Self, Self::Error> {
        match x {
            VersionedMultiLocation::V0(m) => Ok(m),
        }
    }
}

/// The wire form of a versioned path: the version tag this core implements,
/// then the wire form of the path.
pub open spec fn versioned_path_bytes(s: Seq<Junction>) -> Seq<u8> {
    seq![0u8] + path_bytes(s)
}

/// The path a byte string holds when it is exactly the wire form of a
/// versioned path under the version tag this core implements, or nothing
/// otherwise; in particular any other version tag decodes to nothing.
pub open spec fn decoded_versioned_path(b: Seq<u8>) -> Option<Seq<Junction>> {
    if b.len() == 0 || b.first() != 0u8 {
        None
    } else {
        decoded_path(b.drop_first())
    }
}

impl VersionedMultiLocation {
    /// The path carried by the envelope.
    pub open spec fn spec_path(&self) -> MultiLocation {
        match self {
            VersionedMultiLocation::V0(m) => *m,
        }
    }

    /// Encodes the envelope into its wire form: the version tag byte, then
    /// the wire form of the carried path.
    pub fn encode(&self) -> (out: Vec<u8>)
        ensures
            out@ == versioned_path_bytes(self.spec_path()@),
    {
        match self {
            VersionedMultiLocation::V0(m) => {
                let mut out: Vec<u8> = Vec::new();
                out.push(0u8);
                let mut tail = m.encode();
                out.append(&mut tail);
                proof {
                    assert(Seq::<u8>::empty().push(0u8) + path_bytes(m@) =~= seq![0u8]
                        + path_bytes(m@));
                }
                out
            },
        }
    }

    /// Decodes an envelope from its exact wire form. A byte string tagged
    /// with any version other than the one this core implements always
    /// fails with the no-payload error, as does a malformed path.
    pub fn decode(bytes: &[u8]) -> (r: Result<VersionedMultiLocation, ()>)
        ensures
            match decoded_versioned_path(bytes@) {
                Some(s) => r is Ok && r.unwrap().spec_path()@ == s,
                None => r is Err,
            },
            bytes@.len() > 0 && bytes@.first() != 0u8 ==> r is Err,
    {
        if bytes.len() == 0 {
            return Err(());
        }
        let tag = *slice_index_get(bytes, 0);
        if tag != 0 {
            return Err(());
        }
        let rest = slice_subrange(bytes, 1, bytes.len());
        proof {
            assert(bytes@.subrange(1, bytes@.len() as int) =~= bytes@.drop_first());
        }
        match MultiLocation::decode(rest) {
            Ok(m) => Ok(VersionedMultiLocation::V0(m)),
            Err(_) => Err(()),
        }
    }
}

/// Law: the wire form of an envelope around any path decodes back to the
/// same path (round trip through the versioned `encode` and `decode`).
pub proof fn lemma_versioned_round_trip(s: Seq<Junction>)
    requires
        s.len() <= 4,
    ensures
        decoded_versioned_path(versioned_path_bytes(s)) == Some(s),
{
    let b = versioned_path_bytes(s);
    assert(b.first() == 0u8);
    assert(b.drop_first() =~= path_bytes(s));
    lemma_codec_round_trip(s);
}

} // verus!
