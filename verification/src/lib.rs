//! Versioned record encoding: persist structured records across schema
//! revisions, so that bytes written by an older release still decode under a
//! newer one, while streams from an unknown future revision are rejected.

pub mod codec;
pub mod error;
pub mod isolation;
pub mod options;
pub mod revision;

pub use error::DecodeError;
pub use isolation::IsolationLevel;
pub use options::Options;
pub use revision::RevisionSpan;
