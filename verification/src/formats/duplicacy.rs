//! Repositories written by duplicacy.
//!
//! Layout: `config`, `snapshots/<id>/<revision>` and `chunks/<aa>/<rest>`.
//! A revision names entry chunks, which hold the file entries, and index
//! chunks, which list the data chunks. A file is a range over the data
//! chunks of all index chunks, counted through in order.

pub mod config;
pub mod data;
pub mod decoder;
pub mod entry;
pub mod error;
pub mod index;
pub mod revision;

use config::Config;
use crate::codec::same_bytes;
use crate::crypto::blake2b_256;
use crate::crypto::blake2b_256_digest;
use crate::crypto::blake2b_mac_256;
use crate::error::Error;
use crate::reassembly::ChunkRange;
use crate::reassembly::payloads;
use crate::restore::files_of;
use crate::restore::is_latest;
use crate::restore::is_outcome;
use crate::restore::join_path;
use crate::restore::joined_path;
use crate::restore::latest_of;
use crate::restore::lemma_latest_unique;
use crate::restore::lemma_with_all_named_distinct;
use crate::restore::names_distinct;
use crate::restore::put_all_named;
use crate::restore::RestoredFile;
use crate::restore::with_all_named;
use crate::utils::lists_of;
use data::Data;
use entry::entries_of;
use entry::Entry;
use entry::EntryView;
use error::Error as FormatError;
use index::Index;
use revision::Revision;
use vstd::prelude::*;

verus! {

/// An opened repository: its config and the revisions loaded so far, by
/// snapshot id.
#[derive(Debug)]
pub struct Duplicacy {
    pub path: String,
    pub config: Config,
    pub snapshots: Vec<(String, Vec<Revision>)>,
}

/// The revision numbers of a list of revisions.
pub open spec fn revision_numbers(revisions: Seq<Revision>) -> Seq<int> {
    Seq::new(revisions.len(), |i: int| revisions[i].revision as int)
}

/// The hashes of all index chunks before number `upto`, one list after the
/// other.
pub open spec fn flattened(indexes: Seq<Index>, upto: int) -> Seq<Seq<u8>>
    decreases upto,
{
    if upto <= 0 {
        Seq::empty()
    } else {
        flattened(indexes, upto - 1) + lists_of(indexes[upto - 1].hashes@)
    }
}

/// The bytes of the file that an entry describes, over the data chunks of
/// its revision. An entry whose start chunk lies after its end chunk has no
/// bytes. One with a negative number, or with a range that does not fit the
/// chunks, is malformed.
pub open spec fn file_bytes(entry: EntryView, chunks: Seq<Seq<u8>>) -> Result<Seq<u8>, Error> {
    if entry.start_chunk > entry.end_chunk {
        Ok(Seq::empty())
    } else if entry.start_chunk < 0 || entry.start_offset < 0 || entry.end_offset < 0 {
        Err(Error::MalformedMetadata)
    } else {
        let range = ChunkRange {
            start_chunk: entry.start_chunk as usize,
            start_offset: entry.start_offset as usize,
            end_chunk: entry.end_chunk as usize,
            end_offset: entry.end_offset as usize,
        };
        if range.fits(chunks) {
            Ok(range.assembled(chunks))
        } else {
            Err(Error::MalformedMetadata)
        }
    }
}

/// The bytes of the file that an entry describes, checked against the hash
/// that the entry records.
pub open spec fn checked_file(entry: EntryView, chunks: Seq<Seq<u8>>) -> Result<Seq<u8>, Error> {
    match file_bytes(entry, chunks) {
        Err(e) => Err(e),
        Ok(bytes) => if blake2b_256(bytes) == entry.hash {
            Ok(bytes)
        } else {
            Err(Error::Duplicacy(FormatError::MismatchedHash))
        },
    }
}

/// The files that the first `upto` entries restore to, each under the
/// snapshot id and its own path.
pub open spec fn dumped(
    snapshot_id: Seq<char>,
    entries: Seq<EntryView>,
    chunks: Seq<Seq<u8>>,
    upto: int,
) -> Result<Seq<(Seq<char>, Seq<u8>)>, Error>
    decreases upto,
{
    if upto <= 0 {
        Ok(Seq::empty())
    } else {
        match dumped(snapshot_id, entries, chunks, upto - 1) {
            Err(e) => Err(e),
            Ok(files) => match checked_file(entries[upto - 1], chunks) {
                Err(e) => Err(e),
                Ok(bytes) => Ok(
                    files.push((joined_path(snapshot_id, entries[upto - 1].path), bytes)),
                ),
            },
        }
    }
}

/// A failure among the first entries is the failure of the whole.
pub proof fn lemma_failure_stays(
    snapshot_id: Seq<char>,
    entries: Seq<EntryView>,
    chunks: Seq<Seq<u8>>,
    failed: int,
    upto: int,
)
    requires
        0 <= failed <= upto,
        dumped(snapshot_id, entries, chunks, failed) is Err,
    ensures
        dumped(snapshot_id, entries, chunks, upto) == dumped(snapshot_id, entries, chunks, failed),
    decreases upto - failed,
{
    if failed < upto {
        lemma_failure_stays(snapshot_id, entries, chunks, failed, upto - 1);
    }
}

/// Every file that comes out of a restore has as many bytes as its entry's
/// range says and hashes to the value that its entry records.
pub proof fn lemma_dumped_files_checked(
    snapshot_id: Seq<char>,
    entries: Seq<EntryView>,
    chunks: Seq<Seq<u8>>,
    upto: int,
)
    requires
        0 <= upto <= entries.len(),
        dumped(snapshot_id, entries, chunks, upto) is Ok,
    ensures
        dumped(snapshot_id, entries, chunks, upto)->Ok_0.len() == upto,
        forall|i: int|
            0 <= i < upto ==> {
                let file = #[trigger] dumped(snapshot_id, entries, chunks, upto)->Ok_0[i];
                &&& file.0 == joined_path(snapshot_id, entries[i].path)
                &&& Ok::<Seq<u8>, Error>(file.1) == file_bytes(entries[i], chunks)
                &&& blake2b_256(file.1) == entries[i].hash
            },
    decreases upto,
{
    if upto > 0 {
        lemma_dumped_files_checked(snapshot_id, entries, chunks, upto - 1);
    }
}

impl Entry {
    /// Collects the bytes of the file that the entry describes.
    pub fn assemble(&self, chunks: &Vec<Data>) -> (bytes: Result<Vec<u8>, Error>)
        ensures
            crate::error::bytes_or_error(bytes) == file_bytes(self@, payloads(chunks@)),
    {
        if self.start_chunk > self.end_chunk {
            return Ok(Vec::new());
        }
        if self.start_chunk < 0 || self.start_offset < 0 || self.end_offset < 0 {
            return Err(Error::MalformedMetadata);
        }
        let range = ChunkRange {
            start_chunk: self.start_chunk as usize,
            start_offset: self.start_offset as usize,
            end_chunk: self.end_chunk as usize,
            end_offset: self.end_offset as usize,
        };
        range.assemble(chunks)
    }

    /// Collects the bytes of the file that the entry describes and checks
    /// them against the hash that the entry records.
    pub fn restore(&self, chunks: &Vec<Data>) -> (bytes: Result<Vec<u8>, Error>)
        ensures
            crate::error::bytes_or_error(bytes) == checked_file(self@, payloads(chunks@)),
    {
        let bytes = self.assemble(chunks)?;
        let digest = blake2b_256_digest(bytes.as_slice());
        if same_bytes(digest.as_slice(), self.hash.as_slice()) {
            Ok(bytes)
        } else {
            Err(Error::Duplicacy(FormatError::MismatchedHash))
        }
    }
}

impl Duplicacy {
    /// A repository with the given config and no revisions loaded yet.
    pub fn from_folder(path: String, config: Config) -> (repository: Duplicacy)
        ensures
            repository.path == path,
            repository.config == config,
            repository.snapshots@.len() == 0,
    {
        Duplicacy { path, config, snapshots: Vec::new() }
    }

    /// Takes the revisions that were read from `snapshots/`, each list under
    /// its snapshot id, in place of what was loaded before. An id that
    /// occurs twice keeps the later list.
    pub fn load_all_snapshots(&mut self, snapshots: Vec<(String, Vec<Revision>)>)
        ensures
            final(self).snapshots@ == with_all_named(
                Seq::<(String, Vec<Revision>)>::empty(),
                snapshots@,
                snapshots@.len() as int,
            ),
            final(self).path == old(self).path,
            final(self).config == old(self).config,
            names_distinct(final(self).snapshots@),
    {
        let mut filed: Vec<(String, Vec<Revision>)> = Vec::new();
        proof {
            lemma_with_all_named_distinct(filed@, snapshots@, snapshots@.len() as int);
        }
        put_all_named(&mut filed, snapshots);
        self.snapshots = filed;
    }

    /// Takes everything that was read from the repository.
    pub fn load_all(&mut self, snapshots: Vec<(String, Vec<Revision>)>)
        ensures
            final(self).snapshots@ == with_all_named(
                Seq::<(String, Vec<Revision>)>::empty(),
                snapshots@,
                snapshots@.len() as int,
            ),
            final(self).path == old(self).path,
            final(self).config == old(self).config,
    {
        self.load_all_snapshots(snapshots);
    }

    /// Finds the revision with the greatest number, the last one among
    /// equals.
    pub fn latest_revision(revisions: &Vec<Revision>) -> (at: Option<usize>)
        ensures
            revisions@.len() == 0 ==> at is None,
            revisions@.len() > 0 ==> at is Some && at->0 < revisions@.len() && at->0 == latest_of(
                revision_numbers(revisions@),
            ) && is_latest(revision_numbers(revisions@), at->0 as int),
    {
        if revisions.len() == 0 {
            return None;
        }
        let ghost numbers = revision_numbers(revisions@);
        let mut best: usize = 0;
        let mut index: usize = 1;
        while index < revisions.len()
            invariant
                numbers == revision_numbers(revisions@),
                0 <= best < index <= revisions@.len(),
                forall|j: int| 0 <= j < index ==> #[trigger] numbers[j] <= numbers[best as int],
                forall|j: int| best < j < index ==> #[trigger] numbers[j] < numbers[best as int],
            decreases revisions@.len() - index,
        {
            if revisions[best].revision <= revisions[index].revision {
                best = index;
            }
            index = index + 1;
        }
        proof {
            assert(is_latest(numbers, best as int));
            lemma_latest_unique(numbers, best as int, latest_of(numbers));
        }
        Some(best)
    }

    /// Where the chunks with the given content hashes lie, relative to the
    /// repository.
    pub fn chunk_paths(&self, hashes: &Vec<Vec<u8>>) -> (paths: Result<Vec<String>, Error>)
        ensures
            match paths {
                Ok(p) => {
                    &&& p@.len() == hashes@.len()
                    &&& forall|i: int|
                        0 <= i < p@.len() ==> (#[trigger] p@[i])@ == Config::chunk_path(
                            blake2b_mac_256(self.config.id_key@, hashes@[i]@),
                        )
                    &&& hashes@.len() > 0 ==> self.config.id_key@.len() <= config::MAX_MAC_KEY_LEN
                },
                Err(e) => e == Error::InvalidKey && hashes@.len() > 0 && self.config.id_key@.len()
                    > config::MAX_MAC_KEY_LEN,
            },
    {
        let mut paths: Vec<String> = Vec::new();
        let mut index: usize = 0;
        while index < hashes.len()
            invariant
                0 <= index <= hashes@.len(),
                paths@.len() == index,
                index > 0 ==> self.config.id_key@.len() <= config::MAX_MAC_KEY_LEN,
                forall|i: int|
                    0 <= i < index ==> (#[trigger] paths@[i])@ == Config::chunk_path(
                        blake2b_mac_256(self.config.id_key@, hashes@[i]@),
                    ),
            decreases hashes@.len() - index,
        {
            let path = self.config.resolve_path_from_hash(hashes[index].as_slice())?;
            paths.push(path);
            index = index + 1;
        }
        Ok(paths)
    }

    /// Lists the data chunks of a revision: the hashes of its index chunks,
    /// one list after the other. A file's chunk numbers count through this
    /// list.
    pub fn data_chunk_hashes(indexes: Vec<Index>) -> (hashes: Vec<Vec<u8>>)
        ensures
            lists_of(hashes@) == flattened(indexes@, indexes@.len() as int),
    {
        let ghost all = indexes@;
        let mut hashes: Vec<Vec<u8>> = Vec::new();
        assert(lists_of(hashes@) =~= Seq::empty());
        for index in it: indexes.into_iter()
            invariant
                it.seq() == all,
                lists_of(hashes@) == flattened(all, it.index() as int),
        {
            let ghost before = lists_of(hashes@);
            let mut index = index;
            let ghost added = lists_of(index.hashes@);
            hashes.append(&mut index.hashes);
            assert(lists_of(hashes@) =~= before + added);
        }
        hashes
    }

    /// Restores the files of one snapshot id from the entries of its latest
    /// revision and the decoded data chunks of that revision. Every file is
    /// checked against the hash in its entry, and comes back under
    /// `<snapshot id>/<path>`.
    pub fn dump_all_files(&self, snapshot_id: &str, entries: &Vec<Entry>, chunks: &Vec<Data>) -> (files:
        Result<Vec<RestoredFile>, Error>)
        ensures
            is_outcome(
                files,
                dumped(snapshot_id@, entries_of(entries@), payloads(chunks@), entries@.len() as int),
            ),
            files is Ok ==> files->Ok_0@.len() == entries@.len(),
            files is Ok ==> forall|i: int|
                0 <= i < entries@.len() ==> blake2b_256((#[trigger] files->Ok_0@[i]).data@)
                    == entries@[i].hash@,
    {
        let ghost views = entries_of(entries@);
        let ghost all = payloads(chunks@);
        let mut files: Vec<RestoredFile> = Vec::new();
        let mut index: usize = 0;
        assert(files_of(files@) =~= Seq::empty());
        while index < entries.len()
            invariant
                0 <= index <= entries@.len(),
                views == entries_of(entries@),
                all == payloads(chunks@),
                dumped(snapshot_id@, views, all, index as int) == Ok::<
                    Seq<(Seq<char>, Seq<u8>)>,
                    Error,
                >(files_of(files@)),
            decreases entries@.len() - index,
        {
            match entries[index].restore(chunks) {
                Err(e) => {
                    proof {
                        lemma_failure_stays(
                            snapshot_id@,
                            views,
                            all,
                            index + 1,
                            entries@.len() as int,
                        );
                    }
                    return Err(e);
                },
                Ok(data) => {
                    let path = join_path(snapshot_id, entries[index].path.as_str());
                    let ghost before = files_of(files@);
                    files.push(RestoredFile { path, data });
                    assert(files_of(files@) =~= before.push(
                        (joined_path(snapshot_id@, views[index as int].path), data@),
                    ));
                },
            }
            index = index + 1;
        }
        proof {
            lemma_dumped_files_checked(snapshot_id@, views, all, entries@.len() as int);
            assert forall|i: int| 0 <= i < entries@.len() implies blake2b_256(
                (#[trigger] files@[i]).data@,
            ) == entries@[i].hash@ by {
                assert(files_of(files@)[i] == files@[i]@);
                assert(views[i] == entries@[i]@);
            }
        }
        Ok(files)
    }
}

} // verus!
