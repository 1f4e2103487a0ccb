//! Snapshots and the archives they hold.

use crate::error::bytes_or_error;
use crate::error::Error;
use super::config::Config;
use super::decoder::Decoder;
use super::decoder::decompressed;
use vstd::prelude::*;

verus! {

/// One backup of a volume: its archives, by name, in the order of the
/// snapshot.
#[derive(Debug)]
pub struct Snapshot {
    pub id: String,
    pub date: String,
    pub description: Option<String>,
    pub stats: Stats,
    pub archives: Vec<(String, Archive)>,
}

#[derive(Debug)]
pub struct Stats {
    pub files: u64,
    pub dirs: u64,
    pub symlinks: u64,
    pub size: u64,
    pub storage_size: u64,
    pub transferred: u64,
    pub errors: u64,
}

/// A file, a directory or a symlink of a snapshot.
#[derive(Debug)]
pub struct Archive {
    pub path: String,
    pub points_to: Option<String>,
    pub mode: u64,
    pub mod_time: i64,
    pub size: u64,
    pub storage_size: u64,
    pub uid: u32,
    pub gid: u32,
    pub chunks: Option<Vec<Chunk>>,
    pub encrypted: bool,
    pub compressed: bool,
    pub archive_type: ArchiveType,
}

/// A reference from an archive to one of its data chunks.
#[derive(Debug)]
pub struct Chunk {
    pub data: Vec<u8>,
    pub data_parts: u32,
    pub parity_parts: u32,
    pub original_size: i32,
    pub size: i32,
    pub decrypted_hash: String,
    pub hash: String,
    pub num: u32,
}

#[derive(Debug, Clone, Copy, PartialEq, Eq, Structural)]
pub enum ArchiveType {
    File,
    Directory,
    Symlink,
}

impl ArchiveType {
    /// The type that a stored number stands for: 0 a file, 1 a directory, 2
    /// a symlink.
    pub fn from_repr(value: u8) -> (archive_type: Option<ArchiveType>)
        ensures
            archive_type == match value {
                0 => Some(ArchiveType::File),
                1 => Some(ArchiveType::Directory),
                2 => Some(ArchiveType::Symlink),
                _ => None,
            },
    {
        match value {
            0 => Some(ArchiveType::File),
            1 => Some(ArchiveType::Directory),
            2 => Some(ArchiveType::Symlink),
            _ => None,
        }
    }
}

impl Snapshot {
    /// Decodes the JSON document of a snapshot from the contents of its
    /// file.
    pub fn from_file(config: &Config, file: &[u8]) -> (json: Result<Vec<u8>, Error>)
        ensures
            bytes_or_error(json) == decompressed(config.key_digest(), file@),
    {
        Decoder::new_key(config.key.as_str()).decrypt_and_decompress(file)
    }
}

} // verus!
