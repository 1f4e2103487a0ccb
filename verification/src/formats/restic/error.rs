use vstd::prelude::*;

verus! {

#[derive(Debug, Clone, Copy, PartialEq, Eq, Structural)]
pub enum Error {
    /// No key file could be unlocked with the password.
    InvalidPassword,
    /// A pack header names a blob type outside the four known ones.
    InvalidBlobType(u8),
}

} // verus!
