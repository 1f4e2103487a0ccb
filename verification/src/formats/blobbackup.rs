//! Repositories written by blobbackup.
//!
//! Layout: `keys/key-salt`, `keys/master-key`, `keys/sha-key`,
//! `snapshots/<name>` and `chunks/<hex>`. A snapshot lists its chunks and
//! gives every file a range over them.

pub mod chunk;
pub mod decoder;
pub mod keys;
pub mod snapshot;

use chunk::Chunk;
use crate::codec::parse_utc;
use crate::codec::utc_instant;
use crate::error::Error;
use crate::reassembly::payloads;
use crate::restore::files_of;
use crate::restore::is_outcome;
use crate::restore::join_path;
use crate::restore::joined_path;
use crate::restore::latest;
use crate::restore::latest_of;
use crate::restore::leaf;
use crate::restore::leaf_name;
use crate::restore::lemma_with_all_named_distinct;
use crate::restore::names_distinct;
use crate::restore::put_all_named;
use crate::restore::ranks_of;
use crate::restore::RestoredFile;
use crate::restore::Timestamp;
use crate::restore::with_all_named;
use keys::Keys;
use snapshot::ItemType;
use snapshot::Snapshot;
use vstd::prelude::*;

verus! {

/// An opened repository: its keys and the snapshots loaded so far, by file
/// name.
#[derive(Debug)]
pub struct BlobBackup {
    pub path: String,
    pub keys: Keys,
    pub password: String,
    pub snapshots: Vec<(String, Snapshot)>,
}

/// The format of a snapshot's file name: `YYYY-MM-DD-HH-MM-SS`.
pub open spec fn name_format() -> Seq<char> {
    "%Y-%m-%d-%H-%M-%S"@
}

/// Whether every snapshot's name is a date in the name format.
pub open spec fn names_are_dates(snapshots: Seq<(String, Snapshot)>) -> bool {
    forall|i: int|
        0 <= i < snapshots.len() ==> utc_instant(
            (#[trigger] snapshots[i]).0@,
            name_format(),
        ) is Some
}

/// The instant that a name in the name format gives.
pub open spec fn instant_of(name: Seq<char>) -> Timestamp {
    let (secs, nanos) = utc_instant(name, name_format())->0;
    Timestamp { secs, nanos }
}

/// The instants that the snapshots' names give.
pub open spec fn name_instants(snapshots: Seq<(String, Snapshot)>) -> Seq<Timestamp> {
    Seq::new(snapshots.len(), |i: int| instant_of(snapshots[i].0@))
}

impl Snapshot {
    /// The files that the first `upto` items of the snapshot restore to,
    /// given the decoded chunks that the snapshot lists: for each file item,
    /// in order, the last component of its path and the bytes of its range.
    /// A file item without a range, or with one that does not fit the
    /// chunks, is malformed.
    pub open spec fn restored(self, chunks: Seq<Seq<u8>>, upto: int) -> Result<
        Seq<(Seq<char>, Seq<u8>)>,
        Error,
    >
        decreases upto,
    {
        if upto <= 0 {
            Ok(Seq::empty())
        } else {
            match self.restored(chunks, upto - 1) {
                Err(e) => Err(e),
                Ok(files) => {
                    let item = self.snapshot@[upto - 1].1;
                    if item.item_type != ItemType::File {
                        Ok(files)
                    } else {
                        match item.range {
                            None => Err(Error::MalformedMetadata),
                            Some(range) => if range.fits(chunks) {
                                Ok(
                                    files.push(
                                        (
                                            leaf(self.snapshot@[upto - 1].0@),
                                            range.assembled(chunks),
                                        ),
                                    ),
                                )
                            } else {
                                Err(Error::MalformedMetadata)
                            },
                        }
                    }
                },
            }
        }
    }

    /// A failure among the first items is the failure of the whole.
    pub proof fn lemma_failure_stays(self, chunks: Seq<Seq<u8>>, failed: int, upto: int)
        requires
            0 <= failed <= upto,
            self.restored(chunks, failed) is Err,
        ensures
            self.restored(chunks, upto) == self.restored(chunks, failed),
        decreases upto - failed,
    {
        if failed < upto {
            self.lemma_failure_stays(chunks, failed, upto - 1);
        }
    }

    /// Restores the files of the snapshot from its decoded chunks, which are
    /// given in the order in which the snapshot lists them.
    pub fn restore(&self, chunks: &Vec<Chunk>) -> (files: Result<Vec<RestoredFile>, Error>)
        ensures
            is_outcome(files, self.restored(payloads(chunks@), self.snapshot@.len() as int)),
    {
        let ghost all = payloads(chunks@);
        let mut files: Vec<RestoredFile> = Vec::new();
        let mut index: usize = 0;
        assert(files_of(files@) =~= Seq::empty());
        while index < self.snapshot.len()
            invariant
                0 <= index <= self.snapshot@.len(),
                all == payloads(chunks@),
                self.restored(all, index as int) == Ok::<Seq<(Seq<char>, Seq<u8>)>, Error>(
                    files_of(files@),
                ),
            decreases self.snapshot@.len() - index,
        {
            let item = &self.snapshot[index].1;
            if item.item_type == ItemType::File {
                let outcome = match item.range {
                    None => Err(Error::MalformedMetadata),
                    Some(range) => range.assemble(chunks),
                };
                match outcome {
                    Err(e) => {
                        proof {
                            self.lemma_failure_stays(
                                all,
                                index + 1,
                                self.snapshot@.len() as int,
                            );
                        }
                        return Err(e);
                    },
                    Ok(data) => {
                        let path = leaf_name(self.snapshot[index].0.as_str());
                        let ghost before = files_of(files@);
                        files.push(RestoredFile { path, data });
                        assert(files_of(files@) =~= before.push(
                            (leaf(self.snapshot@[index as int].0@), data@),
                        ));
                    },
                }
            }
            index = index + 1;
        }
        Ok(files)
    }
}

impl BlobBackup {
    /// Opens a repository from the contents of its three key files.
    pub fn from_folder(
        path: String,
        password: String,
        key_salt: Vec<u8>,
        master_key_file: &[u8],
        sha_key_file: &[u8],
    ) -> (repository: Result<BlobBackup, Error>)
        ensures
            match repository {
                Ok(r) => r.path == path && r.password == password && r.snapshots@.len() == 0,
                Err(_) => true,
            },
            Keys::matches_unlocked(
                match repository {
                    Ok(r) => Ok(r.keys),
                    Err(e) => Err(e),
                },
                key_salt@,
                Keys::unlocked(
                    vstd::utf8::encode_utf8(password@),
                    key_salt@,
                    master_key_file@,
                    sha_key_file@,
                ),
            ),
    {
        let keys = Keys::from_folder(key_salt, master_key_file, sha_key_file, password.as_str())?;
        Ok(BlobBackup { path, keys, password, snapshots: Vec::new() })
    }

    /// Files the snapshots that were read from `snapshots/`, each under its
    /// file name. A name that is there already gets the new snapshot.
    pub fn load_all_snapshots(&mut self, loaded: Vec<(String, Snapshot)>)
        ensures
            final(self).snapshots@ == with_all_named(
                old(self).snapshots@,
                loaded@,
                loaded@.len() as int,
            ),
            final(self).path == old(self).path,
            final(self).keys == old(self).keys,
            final(self).password == old(self).password,
            names_distinct(old(self).snapshots@) ==> names_distinct(final(self).snapshots@),
    {
        proof {
            if names_distinct(self.snapshots@) {
                lemma_with_all_named_distinct(self.snapshots@, loaded@, loaded@.len() as int);
            }
        }
        put_all_named(&mut self.snapshots, loaded);
    }

    /// Files everything that was read from the repository.
    pub fn load_all(&mut self, loaded: Vec<(String, Snapshot)>)
        ensures
            final(self).snapshots@ == with_all_named(
                old(self).snapshots@,
                loaded@,
                loaded@.len() as int,
            ),
            final(self).path == old(self).path,
            final(self).keys == old(self).keys,
            final(self).password == old(self).password,
    {
        self.load_all_snapshots(loaded);
    }

    /// Where the chunk with the given hash lies, relative to the
    /// repository: `chunks/<hash>`.
    pub fn resolve_path(&self, hash: &str) -> (path: String)
        ensures
            path@ == joined_path("chunks"@, hash@),
    {
        join_path("chunks", hash)
    }

    /// The position of the latest snapshot: the one whose name gives the
    /// latest instant, or nothing where a name is no date.
    pub open spec fn latest_at(self) -> Option<int> {
        if names_are_dates(self.snapshots@) {
            Some(latest_of(ranks_of(name_instants(self.snapshots@))))
        } else {
            None
        }
    }

    /// Finds the latest snapshot by the dates in the snapshots' names.
    pub fn latest_snapshot(&self) -> (at: Result<usize, Error>)
        requires
            self.snapshots@.len() > 0,
        ensures
            match at {
                Ok(i) => self.latest_at() == Some(i as int) && i < self.snapshots@.len(),
                Err(e) => self.latest_at() is None && e == Error::MalformedMetadata,
            },
    {
        let mut times: Vec<Timestamp> = Vec::new();
        let mut index: usize = 0;
        while index < self.snapshots.len()
            invariant
                0 <= index <= self.snapshots@.len(),
                times@.len() == index,
                forall|j: int|
                    0 <= j < index ==> utc_instant(
                        (#[trigger] self.snapshots@[j]).0@,
                        name_format(),
                    ) is Some,
                forall|j: int| 0 <= j < index ==> times@[j] == instant_of(self.snapshots@[j].0@),
            decreases self.snapshots@.len() - index,
        {
            match parse_utc(self.snapshots[index].0.as_str(), "%Y-%m-%d-%H-%M-%S") {
                None => {
                    return Err(Error::MalformedMetadata);
                },
                Some((secs, nanos)) => {
                    times.push(Timestamp { secs, nanos });
                },
            }
            index = index + 1;
        }
        assert(times@ =~= name_instants(self.snapshots@));
        match latest(&times) {
            Some(at) => Ok(at),
            None => Err(Error::MalformedMetadata),
        }
    }

    /// Where the chunks of one snapshot lie, in the order in which the
    /// snapshot lists them.
    pub fn chunk_paths(&self, at: usize) -> (paths: Vec<String>)
        requires
            at < self.snapshots@.len(),
        ensures
            paths@.len() == self.snapshots@[at as int].1.chunks@.len(),
            forall|i: int|
                0 <= i < paths@.len() ==> (#[trigger] paths@[i])@ == joined_path(
                    "chunks"@,
                    self.snapshots@[at as int].1.chunks@[i]@,
                ),
    {
        let hashes = &self.snapshots[at].1.chunks;
        let mut paths: Vec<String> = Vec::new();
        let mut index: usize = 0;
        while index < hashes.len()
            invariant
                0 <= index <= hashes@.len(),
                paths@.len() == index,
                forall|i: int|
                    0 <= i < index ==> (#[trigger] paths@[i])@ == joined_path(
                        "chunks"@,
                        hashes@[i]@,
                    ),
            decreases hashes@.len() - index,
        {
            paths.push(self.resolve_path(hashes[index].as_str()));
            index = index + 1;
        }
        paths
    }

    /// What restoring the latest snapshot gives, from its decoded chunks:
    /// its files, or the reason why there are none.
    pub open spec fn dumped(self, chunks: Seq<Seq<u8>>) -> Result<
        Seq<(Seq<char>, Seq<u8>)>,
        Error,
    > {
        match self.latest_at() {
            None => Err(Error::MalformedMetadata),
            Some(at) => {
                let latest = self.snapshots@[at].1;
                latest.restored(chunks, latest.snapshot@.len() as int)
            },
        }
    }

    /// Restores the files of the latest snapshot. `chunks` holds the decoded
    /// chunks of that snapshot, in the order in which it lists them. The
    /// files come back under their leaf names, to be written flat into the
    /// output directory; directories are passed over.
    pub fn dump_all_files(&self, chunks: &Vec<Chunk>) -> (files: Result<Vec<RestoredFile>, Error>)
        requires
            self.snapshots@.len() > 0,
        ensures
            is_outcome(files, self.dumped(payloads(chunks@))),
    {
        let at = self.latest_snapshot()?;
        self.snapshots[at].1.restore(chunks)
    }
}

} // verus!
