use revisioned_options::error::DecodeError;
use revisioned_options::isolation::{IsolationLevel, ISOLATION_LEVEL_REVISION};

#[test]
fn from_u64_accepts_only_the_closed_set() {
    assert_eq!(
        IsolationLevel::from_u64(0),
        Some(IsolationLevel::SnapshotIsolation)
    );
    assert_eq!(
        IsolationLevel::from_u64(1),
        Some(IsolationLevel::SerializableSnapshotIsolation)
    );
    assert_eq!(IsolationLevel::from_u64(2), None);
    assert_eq!(IsolationLevel::from_u64(255), None);
    assert_eq!(IsolationLevel::from_u64(u64::MAX), None);
}

#[test]
fn isolation_level_standalone_round_trip() {
    for level in [
        IsolationLevel::SnapshotIsolation,
        IsolationLevel::SerializableSnapshotIsolation,
    ] {
        let mut bytes = Vec::new();
        level.encode(&mut bytes);
        assert_eq!(bytes.len(), 3);
        assert_eq!(
            u16::from_le_bytes([bytes[0], bytes[1]]),
            ISOLATION_LEVEL_REVISION
        );
        let mut pos = 0;
        let decoded = IsolationLevel::decode(&bytes, &mut pos, ISOLATION_LEVEL_REVISION).unwrap();
        assert_eq!(decoded, level);
        assert_eq!(pos, bytes.len());
    }
}

#[test]
fn isolation_level_decode_rejects_unknown_tag() {
    let bytes = vec![1u8, 0, 9];
    let mut pos = 0;
    assert_eq!(
        IsolationLevel::decode(&bytes, &mut pos, ISOLATION_LEVEL_REVISION),
        Err(DecodeError::InvalidTag)
    );
    assert_eq!(pos, 0);
}

#[test]
fn isolation_level_decode_rejects_future_revision() {
    let bytes = vec![2u8, 0, 0];
    let mut pos = 0;
    assert_eq!(
        IsolationLevel::decode(&bytes, &mut pos, ISOLATION_LEVEL_REVISION),
        Err(DecodeError::FutureRevision)
    );
    assert_eq!(pos, 0);
}

#[test]
fn isolation_level_decode_rejects_revision_zero_and_truncation() {
    let mut pos = 0;
    assert_eq!(
        IsolationLevel::decode(&vec![0u8, 0, 0], &mut pos, ISOLATION_LEVEL_REVISION),
        Err(DecodeError::Format)
    );
    let mut pos = 0;
    assert_eq!(
        IsolationLevel::decode(&vec![1u8, 0], &mut pos, ISOLATION_LEVEL_REVISION),
        Err(DecodeError::Format)
    );
}
