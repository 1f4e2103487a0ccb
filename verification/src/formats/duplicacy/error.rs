use vstd::prelude::*;

verus! {

#[derive(Debug, Clone, Copy, PartialEq, Eq, Structural)]
pub enum Error {
    /// The config is password-wrapped and no password was given.
    PasswordRequired,
    /// The config header carries a version other than 0 or 1.
    InvalidHeaderVersion(u8),
    /// An encrypted object carries a header version other than 0.
    NonzeroHeaderVersion,
    /// A restored file does not hash to the value recorded in its entry.
    MismatchedHash,
}

} // verus!
