//! The failures a repository read can end in.

use vstd::prelude::*;

verus! {

pub type Result<T> = core::result::Result<T, Error>;

#[derive(Debug, Clone, Copy, PartialEq, Eq, Structural)]
pub enum Error {
    /// An object is shorter than its layout needs.
    Truncated,
    /// A literal header that the layout demands is not there.
    BadMagic,
    /// The authentication tag or MAC of an object does not match.
    InvalidAuth,
    /// Key material has a size that the cipher or MAC cannot take.
    InvalidKey,
    /// Key derivation parameters stored in the repository are out of range.
    InvalidKdfParams,
    /// A compressed payload could not be decompressed.
    Decompress,
    /// A metadata record does not follow its schema.
    MalformedMetadata,
    /// Content does not hash to the identifier it is stored under.
    MismatchedHash,
    /// The repository uses something this reader does not handle.
    UnsupportedFeature,
    Duplicacy(crate::formats::duplicacy::error::Error),
    Restic(crate::formats::restic::error::Error),
}

/// The bytes of a successful outcome, or its failure unchanged.
pub open spec fn bytes_or_error(outcome: core::result::Result<Vec<u8>, Error>) -> core::result::Result<
    Seq<u8>,
    Error,
> {
    match outcome {
        Ok(bytes) => Ok(bytes@),
        Err(e) => Err(e),
    }
}

} // verus!
