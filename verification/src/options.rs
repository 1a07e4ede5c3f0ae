//! The storage engine's `Options` record: the worked example of a revisioned
//! struct, at revision 4, with two retired fields and two late-added ones.

use crate::codec::{
    lemma_seq_assoc, lemma_split_prefix, read_bool, read_byte, read_run, read_u16, read_u64,
    spec_bool_byte, spec_read_bool, spec_read_byte, spec_read_run, spec_read_u16, spec_read_u64,
    string_from_utf8, write_bool, write_byte, write_run, write_u16, write_u64,
};
use crate::error::DecodeError;
use crate::isolation::IsolationLevel;
use crate::revision::RevisionSpan;
use vstd::bytes::{
    lemma_auto_spec_u16_to_from_le_bytes, lemma_auto_spec_u64_to_from_le_bytes,
    spec_u16_to_le_bytes, spec_u64_to_le_bytes,
};
use vstd::prelude::*;
use vstd::string::StrSliceExecFns;
use vstd::utf8::{decode_utf8, encode_utf8, valid_utf8};

verus! {

/// The newest revision of the `Options` record this code understands.
pub const OPTIONS_REVISION: u16 = 4;

/// Engine configuration.  Immutable after construction; `dir` has no
/// meaningful universal default and must be supplied before the engine opens.
#[derive(Clone, Debug)]
pub struct Options {
    /// Directory path for storing the database files.
    pub dir: String,
    /// Isolation level for transactions.
    pub isolation_level: IsolationLevel,
    /// Values no larger than this many bytes are stored and read alongside
    /// their keys; larger values live out-of-line in value-log files.
    pub max_value_threshold: usize,
    /// Maximum size of a single segment.
    pub max_segment_size: u64,
    /// Maximum size of the value cache.
    pub max_value_cache_size: u64,
    /// Maximum size of a single compaction.
    pub max_compaction_segment_size: u64,
    /// If false, data is kept completely in memory; if true it is stored on
    /// disk too.
    pub disk_persistence: bool,
    /// Enables versioned (multi-version) value storage.
    pub enable_versions: bool,
    /// Caches values while writing instead of while reading.
    pub cache_on_write: bool,
}

/// The mathematical value of an [`Options`] record.
#[verifier::ext_equal]
pub struct OptionsV {
    pub dir: Seq<char>,
    pub isolation_level: IsolationLevel,
    pub max_value_threshold: usize,
    pub max_segment_size: u64,
    pub max_value_cache_size: u64,
    pub max_compaction_segment_size: u64,
    pub disk_persistence: bool,
    pub enable_versions: bool,
    pub cache_on_write: bool,
}

impl View for Options {
    type V = OptionsV;

    open spec fn view(&self) -> OptionsV {
        OptionsV {
            dir: self.dir@,
            isolation_level: self.isolation_level,
            max_value_threshold: self.max_value_threshold,
            max_segment_size: self.max_segment_size,
            max_value_cache_size: self.max_value_cache_size,
            max_compaction_segment_size: self.max_compaction_segment_size,
            disk_persistence: self.disk_persistence,
            enable_versions: self.enable_versions,
            cache_on_write: self.cache_on_write,
        }
    }
}

impl Options {
    /// The declared default value of every field.
    pub open spec fn spec_default() -> OptionsV {
        OptionsV {
            dir: Seq::<char>::empty(),
            isolation_level: IsolationLevel::SnapshotIsolation,
            max_value_threshold: 64,
            max_segment_size: 0x20000000,
            max_value_cache_size: 100000,
            max_compaction_segment_size: 0x40000000,
            disk_persistence: true,
            enable_versions: true,
            cache_on_write: false,
        }
    }

    /// Creates a new set of options with default values.
    pub fn new() -> (o: Self)
        ensures
            o@ == Self::spec_default(),
    {
        Self::default()
    }

    /// Returns true if the data should be persisted on disk.
    pub fn should_persist_data(&self) -> (b: bool)
        ensures
            b == self@.disk_persistence,
    {
        self.disk_persistence
    }

    /// Handler for the retired `max_key_size` field: the legacy value is
    /// decoded only to be discarded.
    pub fn convert_max_key_size(&self, revision: u16, value: u64) -> (r: Result<(), DecodeError>)
        ensures
            r == Self::spec_convert_max_key_size(self@, revision, value),
    {
        let _ = revision;
        let _ = value;
        Ok(())
    }

    /// Handler for the retired `max_value_size` field: the legacy value is
    /// decoded only to be discarded.
    pub fn convert_max_value_size(&self, revision: u16, value: u64) -> (r: Result<(), DecodeError>)
        ensures
            r == Self::spec_convert_max_value_size(self@, revision, value),
    {
        let _ = revision;
        let _ = value;
        Ok(())
    }

    /// What the `max_key_size` handler does with a legacy value: nothing.
    pub open spec fn spec_convert_max_key_size(o: OptionsV, revision: u16, value: u64) -> Result<
        (),
        DecodeError,
    > {
        Ok(())
    }

    /// What the `max_value_size` handler does with a legacy value: nothing.
    pub open spec fn spec_convert_max_value_size(o: OptionsV, revision: u16, value: u64) -> Result<
        (),
        DecodeError,
    > {
        Ok(())
    }
}

impl Default for Options {
    /// Creates a new set of options with default values.
    fn default() -> (o: Self)
        ensures
            o@ == Self::spec_default(),
    {
        let o = Options {
            dir: String::new(),
            isolation_level: IsolationLevel::SnapshotIsolation,
            max_value_threshold: 64,  // 64 bytes
            max_segment_size: 0x20000000,  // 512 MB
            max_value_cache_size: 100000,
            max_compaction_segment_size: 0x40000000,  // 1 GB
            disk_persistence: true,
            enable_versions: true,
            cache_on_write: false,
        };
        proof {
            assert(o@ =~= Self::spec_default());
        }
        o
    }
}

impl PartialEq for Options {
    fn eq(&self, other: &Options) -> (r: bool) {
        self.dir == other.dir && self.isolation_level == other.isolation_level
            && self.max_value_threshold == other.max_value_threshold
            && self.max_segment_size == other.max_segment_size
            && self.max_value_cache_size == other.max_value_cache_size
            && self.max_compaction_segment_size == other.max_compaction_segment_size
            && self.disk_persistence == other.disk_persistence
            && self.enable_versions == other.enable_versions
            && self.cache_on_write == other.cache_on_write
    }
}

impl vstd::std_specs::cmp::PartialEqSpecImpl for Options {
    open spec fn obeys_eq_spec() -> bool {
        true
    }

    open spec fn eq_spec(&self, other: &Options) -> bool {
        self@ == other@
    }
}

// --- The historical field table -------------------------------------------
//
// One span per field ever declared, in the fixed on-wire order.  The encoder
// and the decoder both derive their behaviour from these spans alone.

/// Span of `dir`: live in every revision.
pub open spec fn spec_dir_span() -> RevisionSpan {
    RevisionSpan { start: 1, end: None }
}

/// Runtime value of [`spec_dir_span`].
#[verifier::when_used_as_spec(spec_dir_span)]
pub fn dir_span() -> (s: RevisionSpan)
    ensures
        s == spec_dir_span(),
{
    RevisionSpan { start: 1, end: None }
}

/// Span of `isolation_level`: live in every revision.
pub open spec fn spec_isolation_level_span() -> RevisionSpan {
    RevisionSpan { start: 1, end: None }
}

/// Runtime value of [`spec_isolation_level_span`].
#[verifier::when_used_as_spec(spec_isolation_level_span)]
pub fn isolation_level_span() -> (s: RevisionSpan)
    ensures
        s == spec_isolation_level_span(),
{
    RevisionSpan { start: 1, end: None }
}

/// Span of the retired `max_key_size` field: revision 1 only.
pub open spec fn spec_max_key_size_span() -> RevisionSpan {
    RevisionSpan { start: 1, end: Some(2) }
}

/// Runtime value of [`spec_max_key_size_span`].
#[verifier::when_used_as_spec(spec_max_key_size_span)]
pub fn max_key_size_span() -> (s: RevisionSpan)
    ensures
        s == spec_max_key_size_span(),
{
    RevisionSpan { start: 1, end: Some(2) }
}

/// Span of the retired `max_value_size` field: revision 1 only.
pub open spec fn spec_max_value_size_span() -> RevisionSpan {
    RevisionSpan { start: 1, end: Some(2) }
}

/// Runtime value of [`spec_max_value_size_span`].
#[verifier::when_used_as_spec(spec_max_value_size_span)]
pub fn max_value_size_span() -> (s: RevisionSpan)
    ensures
        s == spec_max_value_size_span(),
{
    RevisionSpan { start: 1, end: Some(2) }
}

/// Span of `max_value_threshold`: live in every revision.
pub open spec fn spec_max_value_threshold_span() -> RevisionSpan {
    RevisionSpan { start: 1, end: None }
}

/// Runtime value of [`spec_max_value_threshold_span`].
#[verifier::when_used_as_spec(spec_max_value_threshold_span)]
pub fn max_value_threshold_span() -> (s: RevisionSpan)
    ensures
        s == spec_max_value_threshold_span(),
{
    RevisionSpan { start: 1, end: None }
}

/// Span of `max_segment_size`: live in every revision.
pub open spec fn spec_max_segment_size_span() -> RevisionSpan {
    RevisionSpan { start: 1, end: None }
}

/// Runtime value of [`spec_max_segment_size_span`].
#[verifier::when_used_as_spec(spec_max_segment_size_span)]
pub fn max_segment_size_span() -> (s: RevisionSpan)
    ensures
        s == spec_max_segment_size_span(),
{
    RevisionSpan { start: 1, end: None }
}

/// Span of `max_value_cache_size`: live in every revision.
pub open spec fn spec_max_value_cache_size_span() -> RevisionSpan {
    RevisionSpan { start: 1, end: None }
}

/// Runtime value of [`spec_max_value_cache_size_span`].
#[verifier::when_used_as_spec(spec_max_value_cache_size_span)]
pub fn max_value_cache_size_span() -> (s: RevisionSpan)
    ensures
        s == spec_max_value_cache_size_span(),
{
    RevisionSpan { start: 1, end: None }
}

/// Span of `max_compaction_segment_size`: live in every revision.
pub open spec fn spec_max_compaction_segment_size_span() -> RevisionSpan {
    RevisionSpan { start: 1, end: None }
}

/// Runtime value of [`spec_max_compaction_segment_size_span`].
#[verifier::when_used_as_spec(spec_max_compaction_segment_size_span)]
pub fn max_compaction_segment_size_span() -> (s: RevisionSpan)
    ensures
        s == spec_max_compaction_segment_size_span(),
{
    RevisionSpan { start: 1, end: None }
}

/// Span of `disk_persistence`: live in every revision.
pub open spec fn spec_disk_persistence_span() -> RevisionSpan {
    RevisionSpan { start: 1, end: None }
}

/// Runtime value of [`spec_disk_persistence_span`].
#[verifier::when_used_as_spec(spec_disk_persistence_span)]
pub fn disk_persistence_span() -> (s: RevisionSpan)
    ensures
        s == spec_disk_persistence_span(),
{
    RevisionSpan { start: 1, end: None }
}

/// Span of `enable_versions`: added in revision 3.
pub open spec fn spec_enable_versions_span() -> RevisionSpan {
    RevisionSpan { start: 3, end: None }
}

/// Runtime value of [`spec_enable_versions_span`].
#[verifier::when_used_as_spec(spec_enable_versions_span)]
pub fn enable_versions_span() -> (s: RevisionSpan)
    ensures
        s == spec_enable_versions_span(),
{
    RevisionSpan { start: 3, end: None }
}

/// Span of `cache_on_write`: added in revision 4.
pub open spec fn spec_cache_on_write_span() -> RevisionSpan {
    RevisionSpan { start: 4, end: None }
}

/// Runtime value of [`spec_cache_on_write_span`].
#[verifier::when_used_as_spec(spec_cache_on_write_span)]
pub fn cache_on_write_span() -> (s: RevisionSpan)
    ensures
        s == spec_cache_on_write_span(),
{
    RevisionSpan { start: 4, end: None }
}

// --- The wire format ------------------------------------------------------

/// The bytes of the `dir` field: the length of the path's UTF-8 form as a
/// little-endian `u64`, then those bytes.
pub open spec fn spec_dir_bytes(dir: Seq<char>) -> Seq<u8> {
    spec_u64_to_le_bytes(encode_utf8(dir).len() as u64) + encode_utf8(dir)
}

/// The field bytes an encoder at revision `r` emits for the record `o`, in
/// the fixed declared order: exactly the fields whose span is live at `r`.
/// Encoders at revisions 1 and older carried the two since-retired fields;
/// their values are not part of the current shape, so they enter here as the
/// separate arguments `legacy_max_key_size` and `legacy_max_value_size`.
/// The bytes of the four size fields and the flags, from `max_value_threshold`
/// to the end of the record: the part of the wire format behind the retired
/// fields.
pub open spec fn spec_size_and_flag_bytes(o: OptionsV, r: u16) -> Seq<u8> {
    spec_u64_to_le_bytes(o.max_value_threshold as u64) + (spec_u64_to_le_bytes(o.max_segment_size)
        + (spec_u64_to_le_bytes(o.max_value_cache_size) + (spec_u64_to_le_bytes(
        o.max_compaction_segment_size,
    ) + (seq![spec_bool_byte(o.disk_persistence)] + ((if spec_enable_versions_span().spec_live(r) {
        seq![spec_bool_byte(o.enable_versions)]
    } else {
        Seq::<u8>::empty()
    }) + (if spec_cache_on_write_span().spec_live(r) {
        seq![spec_bool_byte(o.cache_on_write)]
    } else {
        Seq::<u8>::empty()
    }))))))
}

pub open spec fn spec_field_bytes(
    o: OptionsV,
    r: u16,
    legacy_max_key_size: u64,
    legacy_max_value_size: u64,
) -> Seq<u8> {
    spec_dir_bytes(o.dir) + (seq![o.isolation_level.spec_tag()] + ((if spec_max_key_size_span().spec_live(
        r,
    ) {
        spec_u64_to_le_bytes(legacy_max_key_size)
    } else {
        Seq::<u8>::empty()
    }) + ((if spec_max_value_size_span().spec_live(r) {
        spec_u64_to_le_bytes(legacy_max_value_size)
    } else {
        Seq::<u8>::empty()
    }) + spec_size_and_flag_bytes(o, r))))
}

/// A whole encoded record stamped with revision `r`: the revision header
/// followed by the field bytes live at `r`.
pub open spec fn spec_encode(
    o: OptionsV,
    r: u16,
    legacy_max_key_size: u64,
    legacy_max_value_size: u64,
) -> Seq<u8> {
    spec_u16_to_le_bytes(r) + spec_field_bytes(o, r, legacy_max_key_size, legacy_max_value_size)
}

impl Options {
    /// Appends the encoding of `self` at the current revision: the revision
    /// header, then every field live at [`OPTIONS_REVISION`] in declared
    /// order, each written by its scalar codec.  The source value is only
    /// read; the retired fields are not live and nothing is written for them.
    pub fn encode(&self, out: &mut Vec<u8>)
        ensures
            final(out)@ == old(out)@ + spec_encode(self@, OPTIONS_REVISION, 0, 0),
    {
        write_u16(out, OPTIONS_REVISION);
        let db = self.dir.as_str().as_bytes_vec();
        write_u64(out, db.len() as u64);
        write_run(out, &db);
        write_byte(out, self.isolation_level.tag());
        write_u64(out, self.max_value_threshold as u64);
        write_u64(out, self.max_segment_size);
        write_u64(out, self.max_value_cache_size);
        write_u64(out, self.max_compaction_segment_size);
        write_bool(out, self.disk_persistence);
        if enable_versions_span().live(OPTIONS_REVISION) {
            write_bool(out, self.enable_versions);
        }
        if cache_on_write_span().live(OPTIONS_REVISION) {
            write_bool(out, self.cache_on_write);
        }
        proof {
            let w = old(out)@;
            let dirb = encode_utf8(self.dir@);
            let p0 = spec_u16_to_le_bytes(OPTIONS_REVISION);
            let p1 = spec_u64_to_le_bytes(dirb.len() as u64);
            let p3 = seq![self.isolation_level.spec_tag()];
            let p6 = spec_u64_to_le_bytes(self.max_value_threshold as u64);
            let p7 = spec_u64_to_le_bytes(self.max_segment_size);
            let p8 = spec_u64_to_le_bytes(self.max_value_cache_size);
            let p9 = spec_u64_to_le_bytes(self.max_compaction_segment_size);
            let p10 = seq![spec_bool_byte(self.disk_persistence)];
            let p11 = seq![spec_bool_byte(self.enable_versions)];
            let p12 = seq![spec_bool_byte(self.cache_on_write)];
            let t11 = p11 + p12;
            let t10 = p10 + t11;
            let t9 = p9 + t10;
            let t8 = p8 + t9;
            let t7 = p7 + t8;
            let t6 = p6 + t7;
            // What the writes accumulated, left to right.
            let x0 = w + p0;
            let x1 = x0 + p1;
            let xd = x1 + dirb;
            let x3 = xd + p3;
            let x6 = x3 + p6;
            let x7 = x6 + p7;
            let x8 = x7 + p8;
            let x9 = x8 + p9;
            let x10 = x9 + p10;
            let x11 = x10 + p11;
            let x12 = x11 + p12;
            assert(out@ == x12);
            lemma_seq_assoc(x10, p11, p12);
            lemma_seq_assoc(x9, p10, t11);
            lemma_seq_assoc(x8, p9, t10);
            lemma_seq_assoc(x7, p8, t9);
            lemma_seq_assoc(x6, p7, t8);
            lemma_seq_assoc(x3, p6, t7);
            assert(out@ == x3 + t6);
            // The retired fields contribute nothing at the current revision.
            let e = Seq::<u8>::empty();
            assert(e + t6 =~= t6);
            assert(e + (e + t6) == e + t6);
            lemma_seq_assoc(xd, p3, t6);
            lemma_seq_assoc(x0, p1, dirb);
            assert(xd == x0 + (p1 + dirb));
            lemma_seq_assoc(x0, p1 + dirb, p3 + t6);
            assert(out@ == x0 + ((p1 + dirb) + (p3 + t6)));
            assert(spec_field_bytes(self@, OPTIONS_REVISION, 0, 0) == (p1 + dirb) + (p3 + (e + (e
                + t6))));
            assert(spec_field_bytes(self@, OPTIONS_REVISION, 0, 0) == (p1 + dirb) + (p3 + t6));
            lemma_seq_assoc(w, p0, spec_field_bytes(self@, OPTIONS_REVISION, 0, 0));
            assert(out@ == w + spec_encode(self@, OPTIONS_REVISION, 0, 0));
        }
    }
}

// --- Decoding -------------------------------------------------------------
//
// The decoder walks the full historical field table in declared order.  Each
// stage below consumes the bytes of one field when its span is live at the
// stream's revision `r`, threading the record built so far; fields that are
// not live at `r` keep the defaults the record started from.

/// What decoding a stream at offset `start` yields when the decoder knows
/// revisions up to `cur`: the record and the offset after it, or the exact
/// error the stream deserves.  A header revision of 0 does not exist and is
/// malformed; one above `cur` is from the future and is rejected outright.
pub open spec fn spec_decode(s: Seq<u8>, start: int, cur: u16) -> Result<
    (OptionsV, int),
    DecodeError,
> {
    match spec_read_u16(s, start) {
        None => Err(DecodeError::Format),
        Some((r, i)) => if r == 0 {
            Err(DecodeError::Format)
        } else if r > cur {
            Err(DecodeError::FutureRevision)
        } else {
            spec_decode_dir(s, i, r)
        },
    }
}

/// Stage `dir` (live at every revision): a length-prefixed byte run that
/// must be valid UTF-8.
pub open spec fn spec_decode_dir(s: Seq<u8>, i: int, r: u16) -> Result<
    (OptionsV, int),
    DecodeError,
> {
    match spec_read_u64(s, i) {
        None => Err(DecodeError::Format),
        Some((n, j)) => match spec_read_run(s, j, n as int) {
            None => Err(DecodeError::Format),
            Some((b, k)) => if valid_utf8(b) {
                spec_decode_isolation(
                    s,
                    k,
                    r,
                    OptionsV { dir: decode_utf8(b), ..Options::spec_default() },
                )
            } else {
                Err(DecodeError::Format)
            },
        },
    }
}

/// Stage `isolation_level` (live at every revision): a single-byte tag that
/// must belong to the closed set.
pub open spec fn spec_decode_isolation(s: Seq<u8>, i: int, r: u16, o: OptionsV) -> Result<
    (OptionsV, int),
    DecodeError,
> {
    match spec_read_byte(s, i) {
        None => Err(DecodeError::Format),
        Some((t, j)) => match IsolationLevel::spec_from_tag(t as u64) {
            None => Err(DecodeError::InvalidTag),
            Some(l) => spec_decode_max_key_size(s, j, r, OptionsV { isolation_level: l, ..o }),
        },
    }
}

/// Stage for the retired `max_key_size` field: when live at `r` its legacy
/// value is decoded into a scratch `u64` and routed through the conversion
/// handler, whose failure aborts the whole decode.
pub open spec fn spec_decode_max_key_size(s: Seq<u8>, i: int, r: u16, o: OptionsV) -> Result<
    (OptionsV, int),
    DecodeError,
> {
    if spec_max_key_size_span().spec_live(r) {
        match spec_read_u64(s, i) {
            None => Err(DecodeError::Format),
            Some((v, j)) => match Options::spec_convert_max_key_size(o, r, v) {
                Ok(_) => spec_decode_max_value_size(s, j, r, o),
                Err(e) => Err(e),
            },
        }
    } else {
        spec_decode_max_value_size(s, i, r, o)
    }
}

/// Stage for the retired `max_value_size` field, handled like
/// [`spec_decode_max_key_size`].
pub open spec fn spec_decode_max_value_size(s: Seq<u8>, i: int, r: u16, o: OptionsV) -> Result<
    (OptionsV, int),
    DecodeError,
> {
    if spec_max_value_size_span().spec_live(r) {
        match spec_read_u64(s, i) {
            None => Err(DecodeError::Format),
            Some((v, j)) => match Options::spec_convert_max_value_size(o, r, v) {
                Ok(_) => spec_decode_sizes(s, j, r, o),
                Err(e) => Err(e),
            },
        }
    } else {
        spec_decode_sizes(s, i, r, o)
    }
}

/// Stage for the four size fields (live at every revision), each a
/// little-endian `u64`.  `max_value_threshold` must also fit the platform's
/// `usize`.
pub open spec fn spec_decode_sizes(s: Seq<u8>, i: int, r: u16, o: OptionsV) -> Result<
    (OptionsV, int),
    DecodeError,
> {
    match spec_read_u64(s, i) {
        None => Err(DecodeError::Format),
        Some((thr, j1)) => if thr > usize::MAX as u64 {
            Err(DecodeError::Format)
        } else {
            match spec_read_u64(s, j1) {
                None => Err(DecodeError::Format),
                Some((seg, j2)) => match spec_read_u64(s, j2) {
                    None => Err(DecodeError::Format),
                    Some((vc, j3)) => match spec_read_u64(s, j3) {
                        None => Err(DecodeError::Format),
                        Some((comp, j4)) => spec_decode_flags(
                            s,
                            j4,
                            r,
                            OptionsV {
                                max_value_threshold: thr as usize,
                                max_segment_size: seg,
                                max_value_cache_size: vc,
                                max_compaction_segment_size: comp,
                                ..o
                            },
                        ),
                    },
                },
            }
        },
    }
}

/// Stage for `disk_persistence` (live at every revision) and the late-added
/// `enable_versions` (revision 3 on): strict `bool` bytes.  A stream older
/// than revision 3 leaves `enable_versions` at its default.
pub open spec fn spec_decode_flags(s: Seq<u8>, i: int, r: u16, o: OptionsV) -> Result<
    (OptionsV, int),
    DecodeError,
> {
    match spec_read_bool(s, i) {
        None => Err(DecodeError::Format),
        Some((dp, j)) => if spec_enable_versions_span().spec_live(r) {
            match spec_read_bool(s, j) {
                None => Err(DecodeError::Format),
                Some((ev, j2)) => spec_decode_cache_flag(
                    s,
                    j2,
                    r,
                    OptionsV { disk_persistence: dp, enable_versions: ev, ..o },
                ),
            }
        } else {
            spec_decode_cache_flag(s, j, r, OptionsV { disk_persistence: dp, ..o })
        },
    }
}

/// Stage for the late-added `cache_on_write` (revision 4 on): a strict
/// `bool` byte; older streams leave the field at its default.
pub open spec fn spec_decode_cache_flag(s: Seq<u8>, i: int, r: u16, o: OptionsV) -> Result<
    (OptionsV, int),
    DecodeError,
> {
    if spec_cache_on_write_span().spec_live(r) {
        match spec_read_bool(s, i) {
            None => Err(DecodeError::Format),
            Some((cw, j)) => Ok((OptionsV { cache_on_write: cw, ..o }, j)),
        }
    } else {
        Ok((o, i))
    }
}

impl Options {
    /// Decodes one record from `bytes` at `*pos`, given the newest revision
    /// `known_current_revision` this code was built with.  Each call is a
    /// pure function of the input bytes and that revision.  On success the
    /// cursor moves past the record; on failure it is left unchanged and the
    /// error says exactly what was wrong.
    pub fn decode(bytes: &Vec<u8>, pos: &mut usize, known_current_revision: u16) -> (res: Result<
        Options,
        DecodeError,
    >)
        ensures
            res matches Ok(o) ==> spec_decode(bytes@, (*old(pos)) as int, known_current_revision)
                == Ok::<_, DecodeError>((o@, (*final(pos)) as int)),
            res matches Err(e) ==> spec_decode(bytes@, (*old(pos)) as int, known_current_revision)
                == Err::<(OptionsV, int), _>(e) && *final(pos) == *old(pos),
    {
        let ghost s = bytes@;
        let ghost start = (*old(pos)) as int;
        let cur = known_current_revision;

        // Header revision.
        let (r, mut i) = match read_u16(bytes, *pos) {
            Some(p) => p,
            None => { return Err(DecodeError::Format) },
        };
        if r == 0 {
            return Err(DecodeError::Format);
        }
        if r > cur {
            return Err(DecodeError::FutureRevision);
        }
        proof {
            assert(spec_decode(s, start, cur) == spec_decode_dir(s, i as int, r));
        }

        // dir
        let (dlen, j1) = match read_u64(bytes, i) {
            Some(p) => p,
            None => { return Err(DecodeError::Format) },
        };
        if dlen > (bytes.len() - j1) as u64 {
            return Err(DecodeError::Format);
        }
        let (db, j2) = match read_run(bytes, j1, dlen as usize) {
            Some(p) => p,
            None => { return Err(DecodeError::Format) },
        };
        let ghost dbv = db@;
        let dir = match string_from_utf8(db) {
            Some(d) => d,
            None => { return Err(DecodeError::Format) },
        };
        let mut o = Options::new();
        o.dir = dir;
        proof {
            vstd::utf8::encode_utf8_decode_utf8(o.dir@);
            assert(o@ =~= (OptionsV { dir: decode_utf8(dbv), ..Options::spec_default() }));
            assert(spec_decode(s, start, cur) == spec_decode_isolation(s, j2 as int, r, o@));
        }
        i = j2;

        // isolation_level
        let (t, j3) = match read_byte(bytes, i) {
            Some(p) => p,
            None => { return Err(DecodeError::Format) },
        };
        let lvl = match IsolationLevel::from_u64(t as u64) {
            Some(l) => l,
            None => { return Err(DecodeError::InvalidTag) },
        };
        let ghost o_before = o@;
        o.isolation_level = lvl;
        proof {
            assert(o@ =~= (OptionsV { isolation_level: lvl, ..o_before }));
            assert(spec_decode(s, start, cur) == spec_decode_max_key_size(s, j3 as int, r, o@));
        }
        i = j3;

        // retired max_key_size
        if max_key_size_span().live(r) {
            let (v, j) = match read_u64(bytes, i) {
                Some(p) => p,
                None => { return Err(DecodeError::Format) },
            };
            match o.convert_max_key_size(r, v) {
                Ok(_) => {},
                Err(e) => { return Err(e) },
            }
            i = j;
        }
        proof {
            assert(spec_decode(s, start, cur) == spec_decode_max_value_size(s, i as int, r, o@));
        }

        // retired max_value_size
        if max_value_size_span().live(r) {
            let (v, j) = match read_u64(bytes, i) {
                Some(p) => p,
                None => { return Err(DecodeError::Format) },
            };
            match o.convert_max_value_size(r, v) {
                Ok(_) => {},
                Err(e) => { return Err(e) },
            }
            i = j;
        }
        proof {
            assert(spec_decode(s, start, cur) == spec_decode_sizes(s, i as int, r, o@));
        }

        // the four sizes
        let (thr, j4) = match read_u64(bytes, i) {
            Some(p) => p,
            None => { return Err(DecodeError::Format) },
        };
        if thr > usize::MAX as u64 {
            return Err(DecodeError::Format);
        }
        let (seg, j5) = match read_u64(bytes, j4) {
            Some(p) => p,
            None => { return Err(DecodeError::Format) },
        };
        let (vc, j6) = match read_u64(bytes, j5) {
            Some(p) => p,
            None => { return Err(DecodeError::Format) },
        };
        let (comp, j7) = match read_u64(bytes, j6) {
            Some(p) => p,
            None => { return Err(DecodeError::Format) },
        };
        let ghost o_sized = o@;
        o.max_value_threshold = thr as usize;
        o.max_segment_size = seg;
        o.max_value_cache_size = vc;
        o.max_compaction_segment_size = comp;
        proof {
            assert(o@ =~= (OptionsV {
                max_value_threshold: thr as usize,
                max_segment_size: seg,
                max_value_cache_size: vc,
                max_compaction_segment_size: comp,
                ..o_sized
            }));
            assert(spec_decode(s, start, cur) == spec_decode_flags(s, j7 as int, r, o@));
        }
        i = j7;

        // disk_persistence and the late-added flags
        let (dp, j8) = match read_bool(bytes, i) {
            Some(p) => p,
            None => { return Err(DecodeError::Format) },
        };
        i = j8;
        let ghost o_preflag = o@;
        o.disk_persistence = dp;
        if enable_versions_span().live(r) {
            let (ev, j) = match read_bool(bytes, i) {
                Some(p) => p,
                None => { return Err(DecodeError::Format) },
            };
            o.enable_versions = ev;
            i = j;
            proof {
                assert(o@ =~= (OptionsV {
                    disk_persistence: dp,
                    enable_versions: ev,
                    ..o_preflag
                }));
            }
        } else {
            proof {
                assert(o@ =~= (OptionsV { disk_persistence: dp, ..o_preflag }));
            }
        }
        proof {
            assert(spec_decode(s, start, cur) == spec_decode_cache_flag(s, i as int, r, o@));
        }
        let ghost o_precache = o@;
        if cache_on_write_span().live(r) {
            let (cw, j) = match read_bool(bytes, i) {
                Some(p) => p,
                None => { return Err(DecodeError::Format) },
            };
            o.cache_on_write = cw;
            i = j;
            proof {
                assert(o@ =~= (OptionsV { cache_on_write: cw, ..o_precache }));
            }
        }
        proof {
            assert(spec_decode(s, start, cur) == Ok::<_, DecodeError>((o@, i as int)));
        }
        *pos = i;
        Ok(o)
    }
}

// --- What the format guarantees -------------------------------------------

impl OptionsV {
    /// Machine limit met by every record held in memory: the UTF-8 form of
    /// `dir` fits the wire's 64-bit length prefix.
    pub open spec fn wf(self) -> bool {
        encode_utf8(self.dir).len() <= u64::MAX
    }
}

/// The record a stream written at revision `r` decodes to: every field of
/// the current shape that was already live at `r` keeps the writer's value,
/// and each field introduced after `r` takes its declared default.
pub open spec fn spec_migrate(o: OptionsV, r: u16) -> OptionsV {
    OptionsV {
        enable_versions: if spec_enable_versions_span().spec_live(r) {
            o.enable_versions
        } else {
            Options::spec_default().enable_versions
        },
        cache_on_write: if spec_cache_on_write_span().spec_live(r) {
            o.cache_on_write
        } else {
            Options::spec_default().cache_on_write
        },
        ..o
    }
}

/// Historical decode stability: a stream written at any released revision
/// `r` decodes successfully under any newer (or equal) known revision `cur`,
/// consuming exactly the encoded bytes.  Fields introduced after `r` take
/// their declared defaults, and the values of the two fields retired at
/// revision 2 are absorbed by their conversion handlers without aborting the
/// decode, whatever those legacy values were.
#[verifier::spinoff_prover]
#[verifier::rlimit(100)]
pub proof fn lemma_decode_encode(o: OptionsV, r: u16, lk: u64, lv: u64, cur: u16)
    requires
        o.wf(),
        1 <= r,
        r <= cur,
    ensures
        spec_decode(spec_encode(o, r, lk, lv), 0, cur) == Ok::<_, DecodeError>(
            (spec_migrate(o, r), spec_encode(o, r, lk, lv).len() as int),
        ),
{
    lemma_auto_spec_u16_to_from_le_bytes();
    lemma_auto_spec_u64_to_from_le_bytes();
    vstd::utf8::encode_utf8_valid_utf8(o.dir);
    vstd::utf8::encode_utf8_decode_utf8(o.dir);

    let s = spec_encode(o, r, lk, lv);
    let db = encode_utf8(o.dir);
    let dlen = db.len() as u64;
    let p0 = spec_u16_to_le_bytes(r);
    let p1 = spec_u64_to_le_bytes(dlen);
    let p3 = seq![o.isolation_level.spec_tag()];
    let p4 = if spec_max_key_size_span().spec_live(r) {
        spec_u64_to_le_bytes(lk)
    } else {
        Seq::<u8>::empty()
    };
    let p5 = if spec_max_value_size_span().spec_live(r) {
        spec_u64_to_le_bytes(lv)
    } else {
        Seq::<u8>::empty()
    };
    // The stream as nested sums, so it peels field by field from the left.
    let t6 = spec_size_and_flag_bytes(o, r);
    let t5 = p5 + t6;
    let t4 = p4 + t5;
    let t3 = p3 + t4;
    let tdb = db + t3;
    let t1 = p1 + tdb;
    assert(s == p0 + ((p1 + db) + t3));
    lemma_seq_assoc(p1, db, t3);
    assert(s == p0 + t1);

    // Header.
    assert(s.subrange(0, s.len() as int) =~= s);
    lemma_split_prefix(s, 0, p0, t1);
    assert(spec_read_u16(s, 0) == Some((r, 2int)));
    assert(spec_decode(s, 0, cur) == spec_decode_dir(s, 2, r));

    // dir.
    lemma_split_prefix(s, 2, p1, tdb);
    assert(spec_read_u64(s, 2) == Some((dlen, 10int)));
    assert(dlen as int == db.len());
    lemma_split_prefix(s, 10, db, t3);
    let a4 = 10 + db.len() as int;
    assert(spec_read_run(s, 10, dlen as int) == Some((db, a4)));
    let o1 = OptionsV { dir: o.dir, ..Options::spec_default() };
    assert(decode_utf8(db) == o.dir);
    assert(spec_decode_dir(s, 2, r) == spec_decode_isolation(s, a4, r, o1));

    // isolation_level.
    lemma_split_prefix(s, a4, p3, t4);
    let a5 = a4 + 1;
    assert(s.subrange(a4, a5)[0] == s[a4]);
    assert(s[a4] == o.isolation_level.spec_tag());
    assert(spec_read_byte(s, a4) == Some((o.isolation_level.spec_tag(), a5)));
    assert(IsolationLevel::spec_from_tag(o.isolation_level.spec_tag() as u64) == Some(
        o.isolation_level,
    ));
    let o2 = OptionsV { isolation_level: o.isolation_level, ..o1 };
    assert(spec_decode_isolation(s, a4, r, o1) == spec_decode_max_key_size(s, a5, r, o2));

    // The retired fields, live only before revision 2.
    lemma_split_prefix(s, a5, p4, t5);
    let a6 = a5 + p4.len() as int;
    if spec_max_key_size_span().spec_live(r) {
        assert(spec_read_u64(s, a5) == Some((lk, a6)));
    }
    assert(spec_decode_max_key_size(s, a5, r, o2) == spec_decode_max_value_size(s, a6, r, o2));
    lemma_split_prefix(s, a6, p5, t6);
    let a7 = a6 + p5.len() as int;
    if spec_max_value_size_span().spec_live(r) {
        assert(spec_read_u64(s, a6) == Some((lv, a7)));
    }
    assert(spec_decode_max_value_size(s, a6, r, o2) == spec_decode_sizes(s, a7, r, o2));

    // The sizes and flags behind the retired fields.
    assert(o2 == (OptionsV {
        isolation_level: o.isolation_level,
        ..(OptionsV { dir: o.dir, ..Options::spec_default() })
    }));
    assert(s.subrange(a7, s.len() as int) == spec_size_and_flag_bytes(o, r));
    lemma_decode_encode_tail(s, a7, r, o, o2);
}

/// The back half of [`lemma_decode_encode`]: from `max_value_threshold` on,
/// the remaining bytes of an encoding decode to the migrated record.
#[verifier::spinoff_prover]
#[verifier::rlimit(100)]
proof fn lemma_decode_encode_tail(s: Seq<u8>, a: int, r: u16, o: OptionsV, ob: OptionsV)
    requires
        1 <= r,
        0 <= a <= s.len(),
        s.subrange(a, s.len() as int) == spec_size_and_flag_bytes(o, r),
        ob == (OptionsV {
            isolation_level: o.isolation_level,
            ..(OptionsV { dir: o.dir, ..Options::spec_default() })
        }),
    ensures
        spec_decode_sizes(s, a, r, ob) == Ok::<_, DecodeError>(
            (spec_migrate(o, r), s.len() as int),
        ),
{
    lemma_auto_spec_u64_to_from_le_bytes();
    let p6 = spec_u64_to_le_bytes(o.max_value_threshold as u64);
    let p7 = spec_u64_to_le_bytes(o.max_segment_size);
    let p8 = spec_u64_to_le_bytes(o.max_value_cache_size);
    let p9 = spec_u64_to_le_bytes(o.max_compaction_segment_size);
    let p10 = seq![spec_bool_byte(o.disk_persistence)];
    let p11 = if spec_enable_versions_span().spec_live(r) {
        seq![spec_bool_byte(o.enable_versions)]
    } else {
        Seq::<u8>::empty()
    };
    let p12 = if spec_cache_on_write_span().spec_live(r) {
        seq![spec_bool_byte(o.cache_on_write)]
    } else {
        Seq::<u8>::empty()
    };
    let t11 = p11 + p12;
    let t10 = p10 + t11;
    let t9 = p9 + t10;
    let t8 = p8 + t9;
    let t7 = p7 + t8;
    assert(s.subrange(a, s.len() as int) == p6 + t7);

    // The four sizes.
    lemma_split_prefix(s, a, p6, t7);
    let a8 = a + 8;
    assert(spec_read_u64(s, a) == Some((o.max_value_threshold as u64, a8)));
    assert(o.max_value_threshold as u64 <= usize::MAX as u64);
    lemma_split_prefix(s, a8, p7, t8);
    let a9 = a8 + 8;
    assert(spec_read_u64(s, a8) == Some((o.max_segment_size, a9)));
    lemma_split_prefix(s, a9, p8, t9);
    let a10 = a9 + 8;
    assert(spec_read_u64(s, a9) == Some((o.max_value_cache_size, a10)));
    lemma_split_prefix(s, a10, p9, t10);
    let a11 = a10 + 8;
    assert(spec_read_u64(s, a10) == Some((o.max_compaction_segment_size, a11)));
    let o3 = OptionsV {
        max_value_threshold: (o.max_value_threshold as u64) as usize,
        max_segment_size: o.max_segment_size,
        max_value_cache_size: o.max_value_cache_size,
        max_compaction_segment_size: o.max_compaction_segment_size,
        ..ob
    };
    assert(spec_decode_sizes(s, a, r, ob) == spec_decode_flags(s, a11, r, o3));

    // disk_persistence and the late-added flags.
    lemma_split_prefix(s, a11, p10, t11);
    let a12 = a11 + 1;
    assert(s.subrange(a11, a12)[0] == s[a11]);
    assert(s[a11] == spec_bool_byte(o.disk_persistence));
    assert(spec_read_bool(s, a11) == Some((o.disk_persistence, a12)));
    lemma_split_prefix(s, a12, p11, p12);
    let a13 = a12 + p11.len() as int;
    let a14 = a13 + p12.len() as int;
    assert(s.len() == a14);
    if spec_enable_versions_span().spec_live(r) {
        assert(s.subrange(a12, a13)[0] == s[a12]);
        assert(s[a12] == spec_bool_byte(o.enable_versions));
        assert(spec_read_bool(s, a12) == Some((o.enable_versions, a13)));
    }
    if spec_cache_on_write_span().spec_live(r) {
        assert(s.subrange(a13, a14)[0] == s[a13]);
        assert(s[a13] == spec_bool_byte(o.cache_on_write));
        assert(spec_read_bool(s, a13) == Some((o.cache_on_write, a14)));
    }
    if spec_enable_versions_span().spec_live(r) {
        let of = OptionsV {
            disk_persistence: o.disk_persistence,
            enable_versions: o.enable_versions,
            ..o3
        };
        assert(spec_decode_flags(s, a11, r, o3) == spec_decode_cache_flag(s, a13, r, of));
        if spec_cache_on_write_span().spec_live(r) {
            assert(spec_migrate(o, r) =~= (OptionsV { cache_on_write: o.cache_on_write, ..of }));
        } else {
            assert(spec_migrate(o, r) =~= of);
        }
    } else {
        let of = OptionsV { disk_persistence: o.disk_persistence, ..o3 };
        assert(spec_decode_flags(s, a11, r, o3) == spec_decode_cache_flag(s, a13, r, of));
        assert(!spec_cache_on_write_span().spec_live(r));
        assert(spec_migrate(o, r) =~= of);
    }
}

/// Round trip at the current revision: a record encoded by this code
/// decodes, under this code, back to the same record, consuming exactly the
/// encoded bytes.
pub proof fn lemma_round_trip(o: OptionsV)
    requires
        o.wf(),
    ensures
        spec_decode(spec_encode(o, OPTIONS_REVISION, 0, 0), 0, OPTIONS_REVISION) == Ok::<
            _,
            DecodeError,
        >((o, spec_encode(o, OPTIONS_REVISION, 0, 0).len() as int)),
{
    lemma_decode_encode(o, OPTIONS_REVISION, 0, 0, OPTIONS_REVISION);
    assert(spec_migrate(o, OPTIONS_REVISION) =~= o);
}

/// Forward incompatibility: a stream whose header names a revision newer
/// than the one this code knows is rejected outright, whatever follows the
/// header.
pub proof fn lemma_future_revision_rejected(s: Seq<u8>, start: int, cur: u16, r: u16, i: int)
    requires
        spec_read_u16(s, start) == Some((r, i)),
        r > cur,
    ensures
        spec_decode(s, start, cur) == Err::<(OptionsV, int), _>(DecodeError::FutureRevision),
{
}

/// Every successfully decoded record satisfies the machine limit on `dir`,
/// so it can itself be encoded.
pub proof fn lemma_decoded_wf(s: Seq<u8>, start: int, cur: u16, o: OptionsV, n: int)
    requires
        spec_decode(s, start, cur) == Ok::<_, DecodeError>((o, n)),
    ensures
        o.wf(),
{
    match spec_read_u16(s, start) {
        None => {},
        Some((r, i)) => {
            if 1 <= r && r <= cur {
                match spec_read_u64(s, i) {
                    None => {},
                    Some((dl, j)) => {
                        match spec_read_run(s, j, dl as int) {
                            None => {},
                            Some((b, k)) => {
                                if valid_utf8(b) {
                                    vstd::utf8::decode_utf8_encode_utf8(b);
                                    assert(o.dir == decode_utf8(b));
                                    assert(encode_utf8(o.dir) == b);
                                    assert(b.len() == dl as int);
                                }
                            },
                        }
                    },
                }
            }
        },
    }
}

/// Deprecated-field erasure: re-encoding any record that was decoded from a
/// stream never reintroduces the retired fields — whatever legacy values are
/// offered, the bytes written are those of the current shape — and decoding
/// those bytes gives the same record back.  The current shape is a fixed
/// point of decode-then-encode.
pub proof fn lemma_reencode_fixed_point(s: Seq<u8>, o: OptionsV, n: int, lk: u64, lv: u64)
    requires
        spec_decode(s, 0, OPTIONS_REVISION) == Ok::<_, DecodeError>((o, n)),
    ensures
        spec_encode(o, OPTIONS_REVISION, lk, lv) == spec_encode(o, OPTIONS_REVISION, 0, 0),
        spec_decode(spec_encode(o, OPTIONS_REVISION, 0, 0), 0, OPTIONS_REVISION) == Ok::<
            _,
            DecodeError,
        >((o, spec_encode(o, OPTIONS_REVISION, 0, 0).len() as int)),
{
    assert(spec_encode(o, OPTIONS_REVISION, lk, lv) =~= spec_encode(o, OPTIONS_REVISION, 0, 0));
    lemma_decoded_wf(s, 0, OPTIONS_REVISION, o, n);
    lemma_round_trip(o);
}

/// Every field ever declared, in the fixed on-wire order.
pub open spec fn spec_field_table() -> Seq<RevisionSpan> {
    seq![
        spec_dir_span(),
        spec_isolation_level_span(),
        spec_max_key_size_span(),
        spec_max_value_size_span(),
        spec_max_value_threshold_span(),
        spec_max_segment_size_span(),
        spec_max_value_cache_size_span(),
        spec_max_compaction_segment_size_span(),
        spec_disk_persistence_span(),
        spec_enable_versions_span(),
        spec_cache_on_write_span(),
    ]
}

/// Declaration-time self-check of the field table: every span is 1-based and
/// non-empty, and every span is live at the revision it starts at.
pub proof fn lemma_field_table_wf()
    ensures
        forall|k: int|
            0 <= k < spec_field_table().len() ==> (#[trigger] spec_field_table()[k]).wf(),
        forall|k: int|
            0 <= k < spec_field_table().len() ==> (#[trigger] spec_field_table()[k]).spec_live(
                spec_field_table()[k].start,
            ),
{
    assert forall|k: int|
        0 <= k < spec_field_table().len() implies {
        &&& (#[trigger] spec_field_table()[k]).wf()
        &&& spec_field_table()[k].spec_live(spec_field_table()[k].start)
    } by {
        if k == 0 {
            assert(spec_field_table()[k] == spec_dir_span());
        }
    }
}

} // verus!

