//! The ways a capability lookup can fail.

use vstd::prelude::*;

verus! {

/// A failure of one resolution. Unknown terminal names and unexpected
/// alias-record shapes are not errors: resolution reports them as an
/// absent result instead.
#[derive(Clone, Copy, Debug, PartialEq, Eq, Structural)]
pub enum ResolveError {
    /// An operating-system level failure of the database, with its
    /// error code.
    Io(i32),
    /// The alias record pointed at a data record that is not in the
    /// database.
    MissingData,
    /// The data record's marker byte is wrong: the entry is
    /// structurally malformed.
    Invalid,
    /// The data record's payload is not valid UTF-8 text.
    Decoding,
    /// A numeric field's value could not be read as an unsigned
    /// base-10 integer, so the record is untrustworthy.
    UnparsableNumeric,
}

} // verus!
