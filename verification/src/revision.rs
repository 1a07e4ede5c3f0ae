//! Per-field revision metadata: the half-open interval of format revisions
//! during which a field is serialized.

use vstd::prelude::*;

verus! {

/// The span of revisions `[start, end)` during which a field is live: the
/// field is written by encoders at those revisions and expected by decoders
/// reading a stream stamped with one of them.  `end == None` means the field
/// still exists at the newest revision.
#[derive(Clone, Copy, Debug)]
pub struct RevisionSpan {
    /// First revision (inclusive) in which the field exists.
    pub start: u16,
    /// Revision (exclusive) after which the field no longer exists.
    pub end: Option<u16>,
}

impl RevisionSpan {
    /// A field is live at revision `r` iff `start <= r` and, when the span is
    /// bounded, `r < end`.  This predicate is the single source of truth for
    /// both the encoder and the decoder.
    pub open spec fn spec_live(self, r: u16) -> bool {
        &&& self.start <= r
        &&& match self.end {
            Some(e) => r < e,
            None => true,
        }
    }

    /// Declaration-time validity: revisions are 1-based and a bounded span
    /// must be non-empty (`start == end` would describe a field that never
    /// existed).
    pub open spec fn wf(self) -> bool {
        &&& 1 <= self.start
        &&& match self.end {
            Some(e) => self.start < e,
            None => true,
        }
    }

    /// Runtime test of [`Self::spec_live`].
    pub fn live(&self, r: u16) -> (b: bool)
        ensures
            b == self.spec_live(r),
    {
        self.start <= r && match self.end {
            Some(e) => r < e,
            None => true,
        }
    }
}

} // verus!
