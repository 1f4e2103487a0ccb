//! Repositories written by knoxite.
//!
//! Layout: `repository.knoxite`, `chunks/index`, `snapshots/<id>` and
//! `chunks/<aa>/<bb>/<hash>.0_1`. The config lists the volumes and, for
//! each, its snapshots in order; the last one is the latest. A snapshot
//! holds archives, and a file archive lists its chunks in order.

pub mod config;
pub mod decoder;
pub mod index;
pub mod raw_chunk;
pub mod snapshot;

use config::Config;
use config::Volume;
use crate::error::Error;
use crate::restore::join_path;
use crate::restore::joined_path;
use crate::restore::lemma_with_all_named_distinct;
use crate::restore::names_distinct;
use crate::restore::put_all_named;
use crate::restore::with_all_named;
use index::Index;
use snapshot::Archive;
use snapshot::ArchiveType;
use snapshot::Chunk;
use snapshot::Snapshot;
use vstd::prelude::*;
use vstd::string::StringExecFns;
use vstd::string::StrSliceExecFns;

verus! {

/// The shortest hash that has a place in the chunk store.
pub const MIN_HASH_LEN: usize = 4;

/// An opened repository: its config, its chunk index and the snapshots
/// loaded so far, by volume name.
#[derive(Debug)]
pub struct Knoxite {
    pub path: String,
    pub config: Config,
    pub index: Index,
    pub password: String,
    pub snapshots: Vec<(String, Snapshot)>,
}

/// One step of a restore. Paths of steps are relative to the output
/// directory, paths of chunks to the repository.
#[derive(Debug)]
pub enum RestoreStep {
    /// Create a directory, and those above it.
    CreateDir(String),
    /// Write a file that holds the content of the given chunks, in order.
    WriteFile(String, Vec<String>),
}

/// What a step of a restore holds.
pub enum StepView {
    CreateDir(Seq<char>),
    WriteFile(Seq<char>, Seq<Seq<char>>),
}

impl View for RestoreStep {
    type V = StepView;

    open spec fn view(&self) -> StepView {
        match self {
            RestoreStep::CreateDir(path) => StepView::CreateDir(path@),
            RestoreStep::WriteFile(path, chunks) => StepView::WriteFile(
                path@,
                crate::codec::texts_of(chunks@),
            ),
        }
    }
}

/// What each step of a list holds.
pub open spec fn steps_of(steps: Seq<RestoreStep>) -> Seq<StepView> {
    Seq::new(steps.len(), |i: int| steps[i]@)
}

/// The names and paths of a list of pairs.
pub open spec fn pairs_of(pairs: Seq<(String, String)>) -> Seq<(Seq<char>, Seq<char>)> {
    Seq::new(pairs.len(), |i: int| (pairs[i].0@, pairs[i].1@))
}

/// An archive's path without its leading `/`.
pub open spec fn stripped(path: Seq<char>) -> Seq<char> {
    if path.len() > 0 && path[0] == '/' {
        path.skip(1)
    } else {
        path
    }
}

/// Where the chunk with the given hash lies, relative to the repository:
/// `chunks/<aa>/<bb>/<hash>.0_1`, where `<aa>` and `<bb>` are the first and
/// the second pair of characters of the hash.
pub open spec fn chunk_path(hash: Seq<char>) -> Seq<char> {
    joined_path(
        joined_path(joined_path("chunks"@, hash.subrange(0, 2)), hash.subrange(2, 4)),
        hash + ".0_1"@,
    )
}

/// Whether every chunk of a list has a hash long enough for the chunk
/// store.
pub open spec fn hashes_resolve(chunks: Seq<Chunk>) -> bool {
    forall|i: int| 0 <= i < chunks.len() ==> (#[trigger] chunks[i]).hash@.len() >= MIN_HASH_LEN
}

/// Where each chunk of a list lies.
pub open spec fn chunk_paths_of(chunks: Seq<Chunk>) -> Seq<Seq<char>> {
    Seq::new(chunks.len(), |i: int| chunk_path(chunks[i].hash@))
}

/// The step that restores one archive. A directory is created. A file with
/// chunks is written from them; a chunk whose hash is too short for the
/// chunk store makes the archive malformed. A file without chunks and a
/// symlink are passed over.
pub open spec fn step_for(archive: Archive) -> Result<Option<StepView>, Error> {
    match archive.archive_type {
        ArchiveType::Directory => Ok(Some(StepView::CreateDir(stripped(archive.path@)))),
        ArchiveType::Symlink => Ok(None),
        ArchiveType::File => match archive.chunks {
            None => Ok(None),
            Some(chunks) => if hashes_resolve(chunks@) {
                Ok(Some(StepView::WriteFile(stripped(archive.path@), chunk_paths_of(chunks@))))
            } else {
                Err(Error::MalformedMetadata)
            },
        },
    }
}

/// The steps that restore the first `upto` archives of a list, in order.
pub open spec fn steps_for(archives: Seq<(String, Archive)>, upto: int) -> Result<
    Seq<StepView>,
    Error,
>
    decreases upto,
{
    if upto <= 0 {
        Ok(Seq::empty())
    } else {
        match steps_for(archives, upto - 1) {
            Err(e) => Err(e),
            Ok(steps) => match step_for(archives[upto - 1].1) {
                Err(e) => Err(e),
                Ok(None) => Ok(steps),
                Ok(Some(step)) => Ok(steps.push(step)),
            },
        }
    }
}

/// The steps that restore the first `upto` snapshots of a list, in order.
pub open spec fn all_steps(snapshots: Seq<(String, Snapshot)>, upto: int) -> Result<
    Seq<StepView>,
    Error,
>
    decreases upto,
{
    if upto <= 0 {
        Ok(Seq::empty())
    } else {
        match all_steps(snapshots, upto - 1) {
            Err(e) => Err(e),
            Ok(steps) => match steps_for(
                snapshots[upto - 1].1.archives@,
                snapshots[upto - 1].1.archives@.len() as int,
            ) {
                Err(e) => Err(e),
                Ok(more) => Ok(steps + more),
            },
        }
    }
}

/// For each of the first `upto` volumes that has a snapshot, its name and
/// where its latest snapshot lies, relative to the repository:
/// `snapshots/<id>` for the last id that the volume lists.
pub open spec fn latest_of_volumes(volumes: Seq<Volume>, upto: int) -> Seq<
    (Seq<char>, Seq<char>),
>
    decreases upto,
{
    if upto <= 0 {
        Seq::empty()
    } else if volumes[upto - 1].snapshots@.len() == 0 {
        latest_of_volumes(volumes, upto - 1)
    } else {
        latest_of_volumes(volumes, upto - 1).push(
            (
                volumes[upto - 1].name@,
                joined_path("snapshots"@, volumes[upto - 1].snapshots@.last()@),
            ),
        )
    }
}

/// A failure among the first archives is the failure of the whole.
pub proof fn lemma_archive_failure_stays(archives: Seq<(String, Archive)>, failed: int, upto: int)
    requires
        0 <= failed <= upto,
        steps_for(archives, failed) is Err,
    ensures
        steps_for(archives, upto) == steps_for(archives, failed),
    decreases upto - failed,
{
    if failed < upto {
        lemma_archive_failure_stays(archives, failed, upto - 1);
    }
}

/// A failure among the first snapshots is the failure of the whole.
pub proof fn lemma_snapshot_failure_stays(
    snapshots: Seq<(String, Snapshot)>,
    failed: int,
    upto: int,
)
    requires
        0 <= failed <= upto,
        all_steps(snapshots, failed) is Err,
    ensures
        all_steps(snapshots, upto) == all_steps(snapshots, failed),
    decreases upto - failed,
{
    if failed < upto {
        lemma_snapshot_failure_stays(snapshots, failed, upto - 1);
    }
}

/// Gives an archive's path without its leading `/`.
pub fn strip_root(path: &str) -> (relative: String)
    ensures
        relative@ == stripped(path@),
{
    let len = path.unicode_len();
    if len > 0 && path.get_char(0) == '/' {
        String::from_str(path.substring_char(1, len))
    } else {
        String::from_str(path)
    }
}

impl Archive {
    /// Plans the restore of one archive.
    pub fn step(&self, repository: &Knoxite) -> (step: Result<Option<RestoreStep>, Error>)
        ensures
            match step {
                Ok(Some(s)) => step_for(*self) == Ok::<Option<StepView>, Error>(Some(s@)),
                Ok(None) => step_for(*self) == Ok::<Option<StepView>, Error>(None),
                Err(e) => step_for(*self) == Err::<Option<StepView>, Error>(e),
            },
    {
        match self.archive_type {
            ArchiveType::Directory => Ok(
                Some(RestoreStep::CreateDir(strip_root(self.path.as_str()))),
            ),
            ArchiveType::Symlink => Ok(None),
            ArchiveType::File => match &self.chunks {
                None => Ok(None),
                Some(chunks) => {
                    let mut paths: Vec<String> = Vec::new();
                    let mut index: usize = 0;
                    while index < chunks.len()
                        invariant
                            self.archive_type == ArchiveType::File,
                            self.chunks == Some(*chunks),
                            0 <= index <= chunks@.len(),
                            paths@.len() == index,
                            forall|j: int|
                                0 <= j < index ==> (#[trigger] chunks@[j]).hash@.len()
                                    >= MIN_HASH_LEN,
                            forall|j: int|
                                0 <= j < index ==> (#[trigger] paths@[j])@ == chunk_path(
                                    chunks@[j].hash@,
                                ),
                        decreases chunks@.len() - index,
                    {
                        let hash = chunks[index].hash.as_str();
                        if hash.unicode_len() < MIN_HASH_LEN {
                            assert(chunks@[index as int].hash@.len() < MIN_HASH_LEN);
                            return Err(Error::MalformedMetadata);
                        }
                        paths.push(repository.resolve_path(hash));
                        index = index + 1;
                    }
                    assert(crate::codec::texts_of(paths@) =~= chunk_paths_of(chunks@));
                    Ok(Some(RestoreStep::WriteFile(strip_root(self.path.as_str()), paths)))
                },
            },
        }
    }
}

impl Snapshot {
    /// Plans the restore of the archives of one snapshot, in order.
    pub fn steps(&self, repository: &Knoxite) -> (steps: Result<Vec<RestoreStep>, Error>)
        ensures
            match steps {
                Ok(s) => steps_for(self.archives@, self.archives@.len() as int) == Ok::<
                    Seq<StepView>,
                    Error,
                >(steps_of(s@)),
                Err(e) => steps_for(self.archives@, self.archives@.len() as int) == Err::<
                    Seq<StepView>,
                    Error,
                >(e),
            },
    {
        let mut steps: Vec<RestoreStep> = Vec::new();
        let mut index: usize = 0;
        assert(steps_of(steps@) =~= Seq::empty());
        while index < self.archives.len()
            invariant
                0 <= index <= self.archives@.len(),
                steps_for(self.archives@, index as int) == Ok::<Seq<StepView>, Error>(
                    steps_of(steps@),
                ),
            decreases self.archives@.len() - index,
        {
            match self.archives[index].1.step(repository) {
                Err(e) => {
                    proof {
                        lemma_archive_failure_stays(
                            self.archives@,
                            index + 1,
                            self.archives@.len() as int,
                        );
                    }
                    return Err(e);
                },
                Ok(None) => {},
                Ok(Some(step)) => {
                    let ghost before = steps_of(steps@);
                    let ghost view = step@;
                    steps.push(step);
                    assert(steps_of(steps@) =~= before.push(view));
                },
            }
            index = index + 1;
        }
        Ok(steps)
    }
}

impl Knoxite {
    /// A repository with the given config and chunk index and no snapshots
    /// loaded yet.
    pub fn from_folder(path: String, password: String, config: Config, index: Index) -> (repository:
        Knoxite)
        ensures
            repository.path == path,
            repository.password == password,
            repository.config == config,
            repository.index == index,
            repository.snapshots@.len() == 0,
    {
        Knoxite { path, config, index, password, snapshots: Vec::new() }
    }

    /// Names the latest snapshot of every volume that has one, and where it
    /// lies.
    pub fn latest_snapshot_paths(&self) -> (latest: Vec<(String, String)>)
        ensures
            pairs_of(latest@) == latest_of_volumes(
                self.config.volumes@,
                self.config.volumes@.len() as int,
            ),
    {
        let volumes = &self.config.volumes;
        let mut latest: Vec<(String, String)> = Vec::new();
        let mut index: usize = 0;
        assert(pairs_of(latest@) =~= Seq::empty());
        while index < volumes.len()
            invariant
                0 <= index <= volumes@.len(),
                pairs_of(latest@) == latest_of_volumes(volumes@, index as int),
            decreases volumes@.len() - index,
        {
            let ids = &volumes[index].snapshots;
            if ids.len() > 0 {
                let path = join_path("snapshots", ids[ids.len() - 1].as_str());
                let name = volumes[index].name.clone();
                let ghost before = pairs_of(latest@);
                latest.push((name, path));
                assert(pairs_of(latest@) =~= before.push((name@, path@)));
            }
            index = index + 1;
        }
        latest
    }

    /// Files the latest snapshot of each volume under the volume's name. A
    /// name that is there already gets the new snapshot.
    pub fn load_latest_snapshots(&mut self, loaded: Vec<(String, Snapshot)>)
        ensures
            final(self).snapshots@ == with_all_named(
                old(self).snapshots@,
                loaded@,
                loaded@.len() as int,
            ),
            final(self).path == old(self).path,
            final(self).config == old(self).config,
            final(self).index == old(self).index,
            final(self).password == old(self).password,
            names_distinct(old(self).snapshots@) ==> names_distinct(final(self).snapshots@),
    {
        proof {
            if names_distinct(self.snapshots@) {
                lemma_with_all_named_distinct(self.snapshots@, loaded@, loaded@.len() as int);
            }
        }
        put_all_named(&mut self.snapshots, loaded);
    }

    /// Files everything that was read from the repository.
    pub fn load_all(&mut self, loaded: Vec<(String, Snapshot)>)
        ensures
            final(self).snapshots@ == with_all_named(
                old(self).snapshots@,
                loaded@,
                loaded@.len() as int,
            ),
            final(self).path == old(self).path,
            final(self).config == old(self).config,
            final(self).index == old(self).index,
            final(self).password == old(self).password,
    {
        self.load_latest_snapshots(loaded);
    }

    /// Plans the restore of every archive of the loaded snapshots: which
    /// directories to create and which files to write from which chunks.
    /// Symlinks are passed over.
    pub fn dump_all_files(&self) -> (steps: Result<Vec<RestoreStep>, Error>)
        ensures
            match steps {
                Ok(s) => all_steps(self.snapshots@, self.snapshots@.len() as int) == Ok::<
                    Seq<StepView>,
                    Error,
                >(steps_of(s@)),
                Err(e) => all_steps(self.snapshots@, self.snapshots@.len() as int) == Err::<
                    Seq<StepView>,
                    Error,
                >(e),
            },
    {
        let mut steps: Vec<RestoreStep> = Vec::new();
        let mut index: usize = 0;
        assert(steps_of(steps@) =~= Seq::empty());
        while index < self.snapshots.len()
            invariant
                0 <= index <= self.snapshots@.len(),
                all_steps(self.snapshots@, index as int) == Ok::<Seq<StepView>, Error>(
                    steps_of(steps@),
                ),
            decreases self.snapshots@.len() - index,
        {
            match self.snapshots[index].1.steps(self) {
                Err(e) => {
                    proof {
                        lemma_snapshot_failure_stays(
                            self.snapshots@,
                            index + 1,
                            self.snapshots@.len() as int,
                        );
                    }
                    return Err(e);
                },
                Ok(more) => {
                    let ghost before = steps_of(steps@);
                    let ghost added = steps_of(more@);
                    let mut more = more;
                    steps.append(&mut more);
                    assert(steps_of(steps@) =~= before + added);
                },
            }
            index = index + 1;
        }
        Ok(steps)
    }

    /// Computes where the chunk with the given hash lies, relative to the
    /// repository.
    pub fn resolve_path(&self, hash: &str) -> (path: String)
        requires
            hash@.len() >= MIN_HASH_LEN,
        ensures
            path@ == chunk_path(hash@),
    {
        let first = join_path("chunks", hash.substring_char(0, 2));
        let second = join_path(first.as_str(), hash.substring_char(2, 4));
        let mut name = String::from_str(hash);
        name.append(".0_1");
        join_path(second.as_str(), name.as_str())
    }
}

} // verus!
