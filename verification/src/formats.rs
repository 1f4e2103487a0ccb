//! One driver per repository format, and the names they go by.

pub mod blobbackup;
pub mod duplicacy;
pub mod knoxite;
pub mod restic;

pub use blobbackup::BlobBackup;
pub use duplicacy::Duplicacy;
pub use knoxite::Knoxite;
pub use restic::Restic;
use vstd::prelude::*;
use vstd::string::StringExecFns;

verus! {

/// The repository formats that can be read.
#[derive(Debug, Clone, Copy, PartialEq, Eq, Structural)]
pub enum Format {
    BlobBackup,
    Duplicacy,
    Knoxite,
    Restic,
}

impl Format {
    /// The format that a name stands for.
    pub open spec fn named(name: Seq<char>) -> Option<Format> {
        if name == "blobbackup"@ {
            Some(Format::BlobBackup)
        } else if name == "duplicacy"@ {
            Some(Format::Duplicacy)
        } else if name == "knoxite"@ {
            Some(Format::Knoxite)
        } else if name == "restic"@ {
            Some(Format::Restic)
        } else {
            None
        }
    }

    /// Reads the name of a format: `blobbackup`, `duplicacy`, `knoxite` or
    /// `restic`.
    pub fn from_name(name: &str) -> (format: Option<Format>)
        ensures
            format == Self::named(name@),
    {
        let name = String::from_str(name);
        if name == String::from_str("blobbackup") {
            Some(Format::BlobBackup)
        } else if name == String::from_str("duplicacy") {
            Some(Format::Duplicacy)
        } else if name == String::from_str("knoxite") {
            Some(Format::Knoxite)
        } else if name == String::from_str("restic") {
            Some(Format::Restic)
        } else {
            None
        }
    }

    /// Tells whether a repository of this format cannot be opened without
    /// a password. Only duplicacy has repositories that are not encrypted.
    pub fn needs_password(self) -> (needed: bool)
        ensures
            needed == (self != Format::Duplicacy),
    {
        match self {
            Format::Duplicacy => false,
            _ => true,
        }
    }
}

} // verus!
