use xcm::junction::Junction;
use xcm::multi_location::MultiLocation;
use xcm::versioned::VersionedMultiLocation;

fn j(n: u64) -> Junction {
    Junction::ChildIndex(n)
}

fn sample_paths() -> Vec<MultiLocation> {
    vec![
        MultiLocation::Null,
        MultiLocation::X1(Junction::Parent),
        MultiLocation::X2(j(5), Junction::Parent),
        MultiLocation::X3(j(1), j(2), j(3)),
        MultiLocation::X4(Junction::Parent, j(u64::MAX), j(0), j(42)),
    ]
}

#[test]
fn encode_layout_is_discriminant_then_steps() {
    assert_eq!(MultiLocation::Null.encode(), vec![0u8]);
    assert_eq!(MultiLocation::X1(Junction::Parent).encode(), vec![1u8, 0u8]);
    let m = MultiLocation::X2(Junction::Parent, j(258));
    let mut expected = vec![2u8, 0u8, 1u8];
    expected.extend_from_slice(&[2u8, 1u8, 0, 0, 0, 0, 0, 0]);
    assert_eq!(m.encode(), expected);
}

#[test]
fn round_trip_for_every_length() {
    // Encoding then decoding any path of length zero to four yields a path
    // structurally equal to the original.
    for m in sample_paths() {
        let bytes = m.encode();
        assert_eq!(MultiLocation::decode(&bytes), Ok(m));
    }
}

#[test]
fn decode_rejects_malformed_input() {
    // Empty input.
    assert_eq!(MultiLocation::decode(&[]), Err(()));
    // Discriminant beyond four.
    assert_eq!(MultiLocation::decode(&[5u8]), Err(()));
    // Truncated: one step promised, none present.
    assert_eq!(MultiLocation::decode(&[1u8]), Err(()));
    // Truncated child index payload.
    assert_eq!(MultiLocation::decode(&[1u8, 1u8, 7u8]), Err(()));
    // Unknown step tag.
    assert_eq!(MultiLocation::decode(&[1u8, 9u8]), Err(()));
    // Trailing bytes after a complete path.
    assert_eq!(MultiLocation::decode(&[0u8, 0u8]), Err(()));
}

#[test]
fn versioned_round_trip() {
    for m in sample_paths() {
        let wrapped = VersionedMultiLocation::from(m);
        let bytes = wrapped.encode();
        assert_eq!(VersionedMultiLocation::decode(&bytes), Ok(wrapped));
    }
}

#[test]
fn versioned_encode_prefixes_version_tag() {
    let wrapped = VersionedMultiLocation::from(MultiLocation::X1(Junction::Parent));
    assert_eq!(wrapped.encode(), vec![0u8, 1u8, 0u8]);
}

#[test]
fn decode_rejects_unknown_version_tag() {
    // A future or unknown version tag always fails with the no-payload
    // error, whatever follows it.
    for tag in 1u8..=255 {
        assert_eq!(VersionedMultiLocation::decode(&[tag, 1u8, 0u8]), Err(()));
    }
    assert_eq!(VersionedMultiLocation::decode(&[]), Err(()));
}

#[test]
fn envelope_conversions() {
    let m = MultiLocation::X2(j(1), j(2));
    let wrapped = VersionedMultiLocation::from(m);
    assert_eq!(wrapped, VersionedMultiLocation::V0(m));
    let back = MultiLocation::try_from(wrapped);
    assert_eq!(back, Ok(m));
}
