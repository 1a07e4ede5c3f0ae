use revisioned_options::error::DecodeError;
use revisioned_options::isolation::IsolationLevel;
use revisioned_options::options::{Options, OPTIONS_REVISION};

fn push_u16(out: &mut Vec<u8>, v: u16) {
    out.extend_from_slice(&v.to_le_bytes());
}

fn push_u64(out: &mut Vec<u8>, v: u64) {
    out.extend_from_slice(&v.to_le_bytes());
}

fn push_str(out: &mut Vec<u8>, s: &str) {
    push_u64(out, s.len() as u64);
    out.extend_from_slice(s.as_bytes());
}

/// A stream as a revision-1 encoder wrote it: both legacy fields present,
/// neither of the late-added flags.
fn revision_1_stream(max_key_size: u64, max_value_size: u64) -> Vec<u8> {
    let mut out = Vec::new();
    push_u16(&mut out, 1);
    push_str(&mut out, "old/db");
    out.push(0); // IsolationLevel::SnapshotIsolation
    push_u64(&mut out, max_key_size);
    push_u64(&mut out, max_value_size);
    push_u64(&mut out, 128); // max_value_threshold
    push_u64(&mut out, 4096); // max_segment_size
    push_u64(&mut out, 50); // max_value_cache_size
    push_u64(&mut out, 8192); // max_compaction_segment_size
    out.push(1); // disk_persistence
    out
}

/// A stream as a revision-3 encoder wrote it: no legacy fields,
/// `enable_versions` present, `cache_on_write` not yet declared.
fn revision_3_stream() -> Vec<u8> {
    let mut out = Vec::new();
    push_u16(&mut out, 3);
    push_str(&mut out, "v3/db");
    out.push(1); // IsolationLevel::SerializableSnapshotIsolation
    push_u64(&mut out, 32);
    push_u64(&mut out, 1000);
    push_u64(&mut out, 2000);
    push_u64(&mut out, 3000);
    out.push(0); // disk_persistence = false
    out.push(0); // enable_versions = false
    out
}

#[test]
fn default_options() {
    let options = Options::default();

    assert_eq!(options.dir, String::from(""));
    assert_eq!(options.max_value_threshold, 64);
    assert_eq!(options.isolation_level, IsolationLevel::SnapshotIsolation);
    assert_eq!(options.max_segment_size, 1 << 29);
    assert_eq!(options.max_value_cache_size, 100000);
    assert_eq!(options.max_compaction_segment_size, 1 << 30);
    assert!(options.disk_persistence);
    assert!(options.enable_versions);
    assert!(!options.cache_on_write);
}

#[test]
fn new_matches_default() {
    assert!(Options::new() == Options::default());
}

#[test]
fn should_persist_data_follows_disk_persistence() {
    let mut options = Options::new();
    assert!(options.should_persist_data());
    options.disk_persistence = false;
    assert!(!options.should_persist_data());
}

#[test]
fn round_trip_current_revision() {
    let mut v = Options::new();
    v.dir = String::from("data/engine");
    v.isolation_level = IsolationLevel::SerializableSnapshotIsolation;
    v.max_value_threshold = 77;
    v.max_segment_size = 123456789;
    v.max_value_cache_size = 42;
    v.max_compaction_segment_size = 987654321;
    v.disk_persistence = false;
    v.enable_versions = false;
    v.cache_on_write = true;

    let mut bytes = Vec::new();
    v.encode(&mut bytes);
    assert_eq!(u16::from_le_bytes([bytes[0], bytes[1]]), OPTIONS_REVISION);

    let mut pos = 0;
    let decoded = Options::decode(&bytes, &mut pos, OPTIONS_REVISION).unwrap();
    assert!(decoded == v);
    assert_eq!(pos, bytes.len());
}

#[test]
fn round_trip_non_ascii_dir() {
    let mut v = Options::new();
    v.dir = String::from("caf\u{e9}/\u{1f5c4}");
    let mut bytes = Vec::new();
    v.encode(&mut bytes);
    let mut pos = 0;
    let decoded = Options::decode(&bytes, &mut pos, OPTIONS_REVISION).unwrap();
    assert_eq!(decoded.dir, v.dir);
    assert_eq!(pos, bytes.len());
}

#[test]
fn decode_rejects_future_revision() {
    let mut bytes = Vec::new();
    push_u16(&mut bytes, 5);
    let mut pos = 0;
    let res = Options::decode(&bytes, &mut pos, OPTIONS_REVISION);
    assert_eq!(res, Err(DecodeError::FutureRevision));
    assert_eq!(pos, 0);
}

#[test]
fn decode_rejects_newer_writer_than_reader() {
    let mut bytes = Vec::new();
    Options::new().encode(&mut bytes);
    let mut pos = 0;
    let res = Options::decode(&bytes, &mut pos, 3);
    assert_eq!(res, Err(DecodeError::FutureRevision));
    assert_eq!(pos, 0);
}

#[test]
fn decode_rejects_revision_zero() {
    let mut bytes = Vec::new();
    push_u16(&mut bytes, 0);
    push_u64(&mut bytes, 0);
    let mut pos = 0;
    assert_eq!(
        Options::decode(&bytes, &mut pos, OPTIONS_REVISION),
        Err(DecodeError::Format)
    );
    assert_eq!(pos, 0);
}

#[test]
fn decode_rejects_truncated_stream() {
    let bytes = vec![1u8];
    let mut pos = 0;
    assert_eq!(
        Options::decode(&bytes, &mut pos, OPTIONS_REVISION),
        Err(DecodeError::Format)
    );

    let mut full = Vec::new();
    Options::new().encode(&mut full);
    full.truncate(full.len() - 1);
    let mut pos = 0;
    assert_eq!(
        Options::decode(&full, &mut pos, OPTIONS_REVISION),
        Err(DecodeError::Format)
    );
    assert_eq!(pos, 0);
}

#[test]
fn decode_rejects_invalid_isolation_tag() {
    let mut bytes = Vec::new();
    push_u16(&mut bytes, 1);
    push_str(&mut bytes, "x");
    bytes.push(7); // outside the closed set {0, 1}
    let mut pos = 0;
    assert_eq!(
        Options::decode(&bytes, &mut pos, OPTIONS_REVISION),
        Err(DecodeError::InvalidTag)
    );
    assert_eq!(pos, 0);
}

#[test]
fn decode_rejects_invalid_utf8_dir() {
    let mut bytes = Vec::new();
    push_u16(&mut bytes, 1);
    push_u64(&mut bytes, 2);
    bytes.push(0xff);
    bytes.push(0xfe);
    let mut pos = 0;
    assert_eq!(
        Options::decode(&bytes, &mut pos, OPTIONS_REVISION),
        Err(DecodeError::Format)
    );
}

#[test]
fn decode_rejects_bad_bool_byte() {
    let mut bytes = revision_1_stream(0, 0);
    let last = bytes.len() - 1;
    bytes[last] = 2; // disk_persistence must be 0 or 1
    let mut pos = 0;
    assert_eq!(
        Options::decode(&bytes, &mut pos, OPTIONS_REVISION),
        Err(DecodeError::Format)
    );
}

#[test]
fn legacy_fields_migrate_silently() {
    let bytes = revision_1_stream(1024, 1 << 20);
    let mut pos = 0;
    let decoded = Options::decode(&bytes, &mut pos, OPTIONS_REVISION).unwrap();
    assert_eq!(pos, bytes.len());
    assert_eq!(decoded.dir, String::from("old/db"));
    assert_eq!(decoded.isolation_level, IsolationLevel::SnapshotIsolation);
    assert_eq!(decoded.max_value_threshold, 128);
    assert_eq!(decoded.max_segment_size, 4096);
    assert_eq!(decoded.max_value_cache_size, 50);
    assert_eq!(decoded.max_compaction_segment_size, 8192);
    assert!(decoded.disk_persistence);
    // Fields introduced after revision 1 take their revision-4 defaults.
    assert!(decoded.enable_versions);
    assert!(!decoded.cache_on_write);
}

#[test]
fn historical_revision_3_decodes_with_default_cache_flag() {
    let bytes = revision_3_stream();
    let mut pos = 0;
    let decoded = Options::decode(&bytes, &mut pos, OPTIONS_REVISION).unwrap();
    assert_eq!(pos, bytes.len());
    assert_eq!(decoded.dir, String::from("v3/db"));
    assert_eq!(
        decoded.isolation_level,
        IsolationLevel::SerializableSnapshotIsolation
    );
    assert!(!decoded.disk_persistence);
    assert!(!decoded.enable_versions); // written by the revision-3 encoder
    assert!(!decoded.cache_on_write); // absent before revision 4: default
}

#[test]
fn reencoding_a_migrated_record_is_a_fixed_point() {
    let bytes = revision_1_stream(777, 888);
    let mut pos = 0;
    let first = Options::decode(&bytes, &mut pos, OPTIONS_REVISION).unwrap();

    let mut reencoded = Vec::new();
    first.encode(&mut reencoded);
    // The current shape has no legacy fields: header + dir + tag + 4 sizes +
    // 3 flag bytes, and 16 fewer bytes than the revision-1 stream wrote.
    assert_eq!(reencoded.len(), 2 + 8 + first.dir.len() + 1 + 32 + 3);

    let mut pos2 = 0;
    let second = Options::decode(&reencoded, &mut pos2, OPTIONS_REVISION).unwrap();
    assert_eq!(pos2, reencoded.len());
    assert!(second == first);
}

#[test]
fn decode_advances_the_cursor_across_records() {
    let first = Options::new();
    let mut second = Options::new();
    second.dir = String::from("second");
    second.cache_on_write = true;

    let mut bytes = Vec::new();
    first.encode(&mut bytes);
    second.encode(&mut bytes);

    let mut pos = 0;
    let d1 = Options::decode(&bytes, &mut pos, OPTIONS_REVISION).unwrap();
    let d2 = Options::decode(&bytes, &mut pos, OPTIONS_REVISION).unwrap();
    assert!(d1 == first);
    assert!(d2 == second);
    assert_eq!(pos, bytes.len());
}
