//! The transaction isolation mode: a closed enumeration encoded as a
//! single-byte tag, itself a revisioned type at revision 1.

use crate::codec::{read_byte, read_u16, spec_read_byte, spec_read_u16, write_byte, write_u16};
use crate::error::DecodeError;
use vstd::bytes::{spec_u16_to_le_bytes, spec_u16_from_le_bytes, lemma_auto_spec_u16_to_from_le_bytes};
use vstd::prelude::*;

verus! {

/// The revision of [`IsolationLevel`]'s own encoded form.
pub const ISOLATION_LEVEL_REVISION: u16 = 1;

/// Transaction concurrency-control mode: a closed set of two modes.  Every
/// consumption site matches exhaustively; an unknown tag is a fatal decode
/// error, never coerced to a default, since silently picking a mode could
/// change transaction-safety semantics.
#[derive(Clone, Copy, PartialEq, Eq, Structural, Debug)]
pub enum IsolationLevel {
    /// A transaction reads a consistent point-in-time snapshot; write-write
    /// conflicts are detected at commit.
    SnapshotIsolation,
    /// Snapshot isolation with conflict detection sufficient for full
    /// serializability.
    SerializableSnapshotIsolation,
}

impl IsolationLevel {
    /// The single-byte wire tag of each mode.
    pub open spec fn spec_tag(self) -> u8 {
        match self {
            IsolationLevel::SnapshotIsolation => 0,
            IsolationLevel::SerializableSnapshotIsolation => 1,
        }
    }

    /// The mode a tag denotes, if any: only `0` and `1` are in the closed set.
    pub open spec fn spec_from_tag(t: u64) -> Option<IsolationLevel> {
        if t == 0 {
            Some(IsolationLevel::SnapshotIsolation)
        } else if t == 1 {
            Some(IsolationLevel::SerializableSnapshotIsolation)
        } else {
            None
        }
    }

    /// Looks the mode up by its numeric tag; `None` for every value outside
    /// the closed set `{0, 1}`.
    pub fn from_u64(value: u64) -> (r: Option<Self>)
        ensures
            r == Self::spec_from_tag(value),
    {
        match value {
            0 => Some(IsolationLevel::SnapshotIsolation),
            1 => Some(IsolationLevel::SerializableSnapshotIsolation),
            _ => None,
        }
    }

    /// The wire tag of this mode.
    pub fn tag(&self) -> (t: u8)
        ensures
            t == self.spec_tag(),
    {
        match self {
            IsolationLevel::SnapshotIsolation => 0,
            IsolationLevel::SerializableSnapshotIsolation => 1,
        }
    }

    /// The bytes of a standalone encoding of `l` stamped with revision `r`:
    /// the revision header followed by the mode's tag.
    pub open spec fn spec_encode(l: IsolationLevel, r: u16) -> Seq<u8> {
        spec_u16_to_le_bytes(r) + seq![l.spec_tag()]
    }

    /// What decoding a standalone stream at offset `start` yields when the
    /// decoder knows revisions up to `cur`: the mode and the offset after it,
    /// or the exact error the stream deserves.
    pub open spec fn spec_decode(s: Seq<u8>, start: int, cur: u16) -> Result<
        (IsolationLevel, int),
        DecodeError,
    > {
        match spec_read_u16(s, start) {
            None => Err(DecodeError::Format),
            Some((r, i)) => if r == 0 {
                Err(DecodeError::Format)
            } else if r > cur {
                Err(DecodeError::FutureRevision)
            } else {
                match spec_read_byte(s, i) {
                    None => Err(DecodeError::Format),
                    Some((t, j)) => match Self::spec_from_tag(t as u64) {
                        Some(l) => Ok((l, j)),
                        None => Err(DecodeError::InvalidTag),
                    },
                }
            },
        }
    }

    /// Appends the standalone encoding of `self` at the current revision.
    pub fn encode(&self, out: &mut Vec<u8>)
        ensures
            final(out)@ == old(out)@ + Self::spec_encode(*self, ISOLATION_LEVEL_REVISION),
    {
        write_u16(out, ISOLATION_LEVEL_REVISION);
        write_byte(out, self.tag());
        proof {
            assert(out@ =~= old(out)@ + Self::spec_encode(*self, ISOLATION_LEVEL_REVISION));
        }
    }

    /// Decodes a standalone encoding from `bytes` at `*pos`, given the newest
    /// revision `known_current_revision` this code understands.  On success
    /// the cursor moves past the record; on failure it is left unchanged.
    pub fn decode(bytes: &Vec<u8>, pos: &mut usize, known_current_revision: u16) -> (res: Result<
        IsolationLevel,
        DecodeError,
    >)
        ensures
            res matches Ok(l) ==> Self::spec_decode(
                bytes@,
                (*old(pos)) as int,
                known_current_revision,
            ) == Ok::<_, DecodeError>((l, (*final(pos)) as int)),
            res matches Err(e) ==> Self::spec_decode(
                bytes@,
                (*old(pos)) as int,
                known_current_revision,
            ) == Err::<(IsolationLevel, int), _>(e) && *final(pos) == *old(pos),
    {
        let (r, i) = match read_u16(bytes, *pos) {
            Some(p) => p,
            None => { return Err(DecodeError::Format) },
        };
        if r == 0 {
            return Err(DecodeError::Format);
        }
        if r > known_current_revision {
            return Err(DecodeError::FutureRevision);
        }
        let (t, j) = match read_byte(bytes, i) {
            Some(p) => p,
            None => { return Err(DecodeError::Format) },
        };
        match Self::from_u64(t as u64) {
            Some(l) => {
                *pos = j;
                Ok(l)
            },
            None => Err(DecodeError::InvalidTag),
        }
    }
}

/// A standalone encoding of any mode at the current revision decodes back to
/// that mode, consuming exactly the encoded bytes.
pub proof fn lemma_isolation_round_trip(l: IsolationLevel)
    ensures
        IsolationLevel::spec_decode(
            IsolationLevel::spec_encode(l, ISOLATION_LEVEL_REVISION),
            0,
            ISOLATION_LEVEL_REVISION,
        ) == Ok::<_, DecodeError>((l, IsolationLevel::spec_encode(l, ISOLATION_LEVEL_REVISION).len() as int)),
{
    lemma_auto_spec_u16_to_from_le_bytes();
    let s = IsolationLevel::spec_encode(l, ISOLATION_LEVEL_REVISION);
    assert(s.subrange(0, 2) =~= spec_u16_to_le_bytes(ISOLATION_LEVEL_REVISION));
    assert(spec_u16_from_le_bytes(s.subrange(0, 2)) == ISOLATION_LEVEL_REVISION);
    assert(s[2] == l.spec_tag());
}

} // verus!
