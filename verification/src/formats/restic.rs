//! Repositories written by restic.
//!
//! Layout: `config`, `keys/<id>`, `index/<id>`, `snapshots/<id>` and
//! `data/<aa>/<pack id>`. A snapshot names a root tree. A tree blob lists
//! nodes: a directory names its subtree, a file the data blobs of its
//! content. The index says which pack holds which blob.

pub mod config;
pub mod decoder;
pub mod error;
pub mod index;
pub mod keys;
pub mod pack;
pub mod snapshot;

use config::Config;
use crate::codec::hex_encoded;
use crate::crypto::sha256;
use crate::error::Error;
use crate::restore::files_of;
use crate::restore::is_first_named;
use crate::restore::is_unnamed;
use crate::restore::join_path;
use crate::restore::joined_path;
use crate::restore::latest;
use crate::restore::latest_of;
use crate::restore::leaf;
use crate::restore::leaf_name;
use crate::restore::ranks_of;
use crate::restore::RestoredFile;
use crate::restore::Timestamp;
use index::has_blob;
use index::Index;
use index::is_first_blob;
use keys::Masterkey;
use pack::Blob;
use pack::BlobKind;
use pack::Node;
use pack::NodeType;
use pack::PackedBlob;
use pack::Tree;
use snapshot::Snapshot;
use std::collections::VecDeque;
use vstd::hash_map::StringHashMap;
use vstd::prelude::*;
use vstd::string::StrSliceExecFns;

verus! {

/// The shortest pack id that has a place in the data store.
pub const MIN_PACK_ID_LEN: usize = 2;

/// An opened repository: its config, master key and merged index, and the
/// snapshots loaded so far.
#[derive(Debug)]
pub struct Restic {
    pub path: String,
    pub config: Config,
    pub masterkey: Masterkey,
    pub index: Index,
    pub snapshots: Vec<Snapshot>,
}

/// Where to find a blob: the pack to read, relative to the repository, and
/// the numbers of the pack and of the blob in the index.
#[derive(Debug)]
pub struct Fetch {
    pub pack_path: String,
    pub pack: usize,
    pub blob: usize,
}

/// A breadth-first walk from a root tree over everything it refers to. The
/// walk names the next blob to fetch, takes it in once it has been opened
/// and checked, and keeps what it has taken in, each blob once, in the order
/// in which it came.
pub struct TreeWalk {
    queue: VecDeque<String>,
    blobs: Vec<(String, Blob)>,
    /// Where in `blobs` each id is kept.
    positions: StringHashMap<usize>,
    pending: Option<String>,
}

/// The ids that a node refers to: its subtree, then the blobs of its
/// content in order.
pub open spec fn node_children(node: Node) -> Seq<String> {
    (match node.subtree {
        Some(subtree) => seq![subtree],
        None => Seq::empty(),
    }) + (match node.content {
        Some(content) => content@,
        None => Seq::empty(),
    })
}

/// The ids that the first `upto` nodes refer to, node after node.
pub open spec fn children(nodes: Seq<Node>, upto: int) -> Seq<String>
    decreases upto,
{
    if upto <= 0 {
        Seq::empty()
    } else {
        children(nodes, upto - 1) + node_children(nodes[upto - 1])
    }
}

/// Whether a list of ids holds `id`.
pub open spec fn holds(ids: Seq<String>, id: Seq<char>) -> bool {
    exists|i: int| 0 <= i < ids.len() && (#[trigger] ids[i])@ == id
}

/// Whether a blob is a tree with a node that refers to `id`.
pub open spec fn refers(blob: Blob, id: Seq<char>) -> bool {
    match blob {
        Blob::Tree(tree) => holds(children(tree.nodes@, tree.nodes@.len() as int), id),
        Blob::Data(_) => false,
    }
}

/// The blob that a list keeps under `id`.
pub open spec fn blob_named(blobs: Seq<(String, Blob)>, id: Seq<char>) -> Option<Blob> {
    if is_unnamed(blobs, id) {
        None
    } else {
        Some(blobs[choose|at: int| is_first_named(blobs, id, at)].1)
    }
}

/// The content of the first `upto` of a file's blobs, one after the other.
/// Only data blobs that the list keeps have content.
pub open spec fn content_of(blobs: Seq<(String, Blob)>, ids: Seq<String>, upto: int) -> Seq<u8>
    decreases upto,
{
    if upto <= 0 {
        Seq::empty()
    } else {
        content_of(blobs, ids, upto - 1) + (match blob_named(blobs, ids[upto - 1]@) {
            Some(Blob::Data(bytes)) => bytes@,
            _ => Seq::empty(),
        })
    }
}

/// The files of the first `upto` nodes of a tree: each file node that lists
/// content, under the last component of its name.
pub open spec fn files_of_nodes(blobs: Seq<(String, Blob)>, nodes: Seq<Node>, upto: int) -> Seq<
    (Seq<char>, Seq<u8>),
>
    decreases upto,
{
    if upto <= 0 {
        Seq::empty()
    } else {
        let node = nodes[upto - 1];
        let before = files_of_nodes(blobs, nodes, upto - 1);
        match node.content {
            Some(content) => if node.node_type == NodeType::File {
                before.push(
                    (leaf(node.name@), content_of(blobs, content@, content@.len() as int)),
                )
            } else {
                before
            },
            None => before,
        }
    }
}

/// The files of the trees among the first `upto` blobs of a list, tree after
/// tree.
pub open spec fn files_of_blobs(blobs: Seq<(String, Blob)>, upto: int) -> Seq<
    (Seq<char>, Seq<u8>),
>
    decreases upto,
{
    if upto <= 0 {
        Seq::empty()
    } else {
        files_of_blobs(blobs, upto - 1) + (match blobs[upto - 1].1 {
            Blob::Tree(tree) => files_of_nodes(blobs, tree.nodes@, tree.nodes@.len() as int),
            Blob::Data(_) => Seq::empty(),
        })
    }
}

/// The times of a list of snapshots.
pub open spec fn times_of(snapshots: Seq<Snapshot>) -> Seq<Timestamp> {
    Seq::new(snapshots.len(), |i: int| snapshots[i].time)
}

/// Where the pack with the given id lies, relative to the repository:
/// `data/<aa>/<id>`, where `<aa>` is the first pair of characters of the id.
pub open spec fn pack_path(id: Seq<char>) -> Seq<char> {
    joined_path(joined_path("data"@, id.subrange(0, 2)), id)
}

/// Keeping one more blob, under an id that was not kept before, and noting
/// its position keeps the positions in step with the blobs.
proof fn lemma_kept_positions(
    before: Seq<(String, Blob)>,
    after: Seq<(String, Blob)>,
    positions_before: Map<Seq<char>, usize>,
    positions_after: Map<Seq<char>, usize>,
)
    requires
        after.len() == before.len() + 1,
        after.drop_last() == before,
        is_unnamed(before, after.last().0@),
        positions_after == positions_before.insert(after.last().0@, before.len() as usize),
        before.len() <= usize::MAX,
        forall|id: Seq<char>|
            #![trigger positions_before.contains_key(id)]
            #![trigger is_unnamed(before, id)]
            positions_before.contains_key(id) <==> !is_unnamed(before, id),
        forall|id: Seq<char>| #[trigger]
            positions_before.contains_key(id) ==> positions_before[id] < before.len()
                && before[positions_before[id] as int].0@ == id,
    ensures
        forall|id: Seq<char>|
            #![trigger positions_after.contains_key(id)]
            #![trigger is_unnamed(after, id)]
            positions_after.contains_key(id) <==> !is_unnamed(after, id),
        forall|id: Seq<char>| #[trigger]
            positions_after.contains_key(id) ==> positions_after[id] < after.len()
                && after[positions_after[id] as int].0@ == id,
{
    let added = after.last().0@;
    assert forall|id: Seq<char>|
        #![trigger positions_after.contains_key(id)]
        #![trigger is_unnamed(after, id)]
        positions_after.contains_key(id) <==> !is_unnamed(after, id) by {
        if id == added {
            assert(after[before.len() as int].0@ == id);
        } else {
            assert(positions_after.contains_key(id) == positions_before.contains_key(id));
            if is_unnamed(before, id) {
                assert forall|j: int| 0 <= j < after.len() implies (#[trigger] after[j]).0@
                    != id by {
                    if j < before.len() {
                        assert(before[j] == after[j]);
                    }
                }
            } else {
                let j = choose|j: int| 0 <= j < before.len() && !((#[trigger] before[j]).0@ != id);
                assert(after[j] == before[j]);
            }
        }
    }
    assert forall|id: Seq<char>| #[trigger] positions_after.contains_key(id) implies positions_after[id]
        < after.len() && after[positions_after[id] as int].0@ == id by {
        if id != added {
            assert(positions_before.contains_key(id));
            assert(after[positions_before[id] as int] == before[positions_before[id] as int]);
        }
    }
}

/// An id that either of two lists holds is held by the two put together.
pub proof fn lemma_holds_either(first: Seq<String>, second: Seq<String>, id: Seq<char>)
    ensures
        holds(first + second, id) <==> holds(first, id) || holds(second, id),
{
    if holds(first, id) {
        let i = choose|i: int| 0 <= i < first.len() && (#[trigger] first[i])@ == id;
        assert((first + second)[i]@ == id);
    }
    if holds(second, id) {
        let i = choose|i: int| 0 <= i < second.len() && (#[trigger] second[i])@ == id;
        assert((first + second)[first.len() + i]@ == id);
    }
    if holds(first + second, id) {
        let i = choose|i: int| 0 <= i < (first + second).len() && (#[trigger] (first + second)[i])@
            == id;
        if i < first.len() {
            assert(first[i]@ == id);
        } else {
            assert(second[i - first.len()]@ == id);
        }
    }
}

impl TreeWalk {
    /// The ids still to be looked at, the next one first.
    pub closed spec fn queued(&self) -> Seq<String> {
        self.queue@
    }

    /// The blobs taken in so far, each under its id, in the order in which
    /// they came.
    pub closed spec fn cached(&self) -> Seq<(String, Blob)> {
        self.blobs@
    }

    /// The id of the blob that the walk waits for.
    pub closed spec fn awaited(&self) -> Option<Seq<char>> {
        match self.pending {
            Some(id) => Some(id@),
            None => None,
        }
    }

    /// Whether the walk has looked at everything.
    pub open spec fn is_done(&self) -> bool {
        self.queued().len() == 0 && self.awaited() is None
    }

    /// Whether the walk knows of `id`: it keeps it, will look at it, or
    /// waits for it.
    pub open spec fn knows(&self, id: Seq<char>) -> bool {
        ||| !is_unnamed(self.cached(), id)
        ||| holds(self.queued(), id)
        ||| self.awaited() == Some(id)
    }

    /// What holds of a walk at all times: every data blob it keeps hashes
    /// to the id it is kept under; no id is kept twice; the blob it waits
    /// for is not kept yet; and it knows of every id that a tree it keeps
    /// refers to.
    pub closed spec fn wf(&self) -> bool {
        &&& forall|i: int|
            0 <= i < self.blobs@.len() ==> match (#[trigger] self.blobs@[i]).1 {
                Blob::Data(bytes) => self.blobs@[i].0@ == hex_encoded(sha256(bytes@)),
                Blob::Tree(_) => true,
            }
        &&& match self.pending {
            Some(id) => is_unnamed(self.blobs@, id@),
            None => true,
        }
        &&& forall|i: int, id: Seq<char>|
            0 <= i < self.blobs@.len() && #[trigger] refers(self.blobs@[i].1, id) ==> self.knows(
                id,
            )
        &&& self.indexed()
    }

    /// Whether the walk knows where it keeps each id: the positions it has
    /// noted are those of the blobs it keeps, and no id is kept twice.
    closed spec fn indexed(&self) -> bool {
        &&& forall|i: int, j: int|
            0 <= i < j < self.blobs@.len() ==> (#[trigger] self.blobs@[i]).0@
                != (#[trigger] self.blobs@[j]).0@
        &&& forall|id: Seq<char>|
            #![trigger self.positions@.contains_key(id)]
            #![trigger is_unnamed(self.blobs@, id)]
            self.positions@.contains_key(id) <==> !is_unnamed(self.blobs@, id)
        &&& forall|id: Seq<char>| #[trigger]
            self.positions@.contains_key(id) ==> self.positions@[id] < self.blobs@.len()
                && self.blobs@[self.positions@[id] as int].0@ == id
    }

    /// Looks up where the walk keeps the blob with the given id.
    fn position(&self, id: &String) -> (at: Option<usize>)
        requires
            self.indexed(),
        ensures
            match at {
                Some(i) => is_first_named(self.blobs@, id@, i as int),
                None => is_unnamed(self.blobs@, id@),
            },
    {
        match self.positions.get(id.as_str()) {
            Some(at) => {
                assert(self.positions@.contains_key(id@));
                Some(*at)
            },
            None => {
                assert(!self.positions@.contains_key(id@));
                None
            },
        }
    }

    /// Gets the content of a file from the blobs that it lists.
    fn file_content(&self, ids: &Vec<String>) -> (content: Vec<u8>)
        requires
            self.wf(),
        ensures
            content@ == content_of(self.blobs@, ids@, ids@.len() as int),
    {
        let mut content: Vec<u8> = Vec::new();
        let mut index: usize = 0;
        while index < ids.len()
            invariant
                self.wf(),
                0 <= index <= ids@.len(),
                content@ == content_of(self.blobs@, ids@, index as int),
            decreases ids@.len() - index,
        {
            match self.position(&ids[index]) {
                Some(at) => {
                    proof {
                        let chosen = choose|i: int|
                            is_first_named(self.blobs@, ids@[index as int]@, i);
                        assert(is_first_named(self.blobs@, ids@[index as int]@, at as int));
                        assert(chosen == at);
                    }
                    match &self.blobs[at].1 {
                        Blob::Data(bytes) => {
                            content.extend_from_slice(bytes.as_slice());
                        },
                        Blob::Tree(_) => {
                            assert(content@ + Seq::<u8>::empty() =~= content@);
                        },
                    }
                },
                None => {
                    assert(content@ + Seq::<u8>::empty() =~= content@);
                },
            }
            index = index + 1;
        }
        content
    }

    /// Gets the files of one tree.
    fn tree_files(&self, tree: &Tree) -> (files: Vec<RestoredFile>)
        requires
            self.wf(),
        ensures
            files_of(files@) == files_of_nodes(self.blobs@, tree.nodes@, tree.nodes@.len() as int),
    {
        let mut files: Vec<RestoredFile> = Vec::new();
        let mut index: usize = 0;
        assert(files_of(files@) =~= Seq::empty());
        while index < tree.nodes.len()
            invariant
                self.wf(),
                0 <= index <= tree.nodes@.len(),
                files_of(files@) == files_of_nodes(self.blobs@, tree.nodes@, index as int),
            decreases tree.nodes@.len() - index,
        {
            let node = &tree.nodes[index];
            match &node.content {
                Some(content) => {
                    if node.node_type == NodeType::File {
                        let data = self.file_content(content);
                        let path = leaf_name(node.name.as_str());
                        let ghost before = files_of(files@);
                        files.push(RestoredFile { path, data });
                        assert(files_of(files@) =~= before.push((leaf(node.name@), data@)));
                    }
                },
                None => {},
            }
            index = index + 1;
        }
        files
    }

    /// Every data blob that a walk keeps hashes to the id it is kept under.
    pub proof fn lemma_kept_blobs_hash(self, at: int)
        requires
            self.wf(),
            0 <= at < self.cached().len(),
        ensures
            match self.cached()[at].1 {
                Blob::Data(bytes) => self.cached()[at].0@ == hex_encoded(sha256(bytes@)),
                Blob::Tree(_) => true,
            },
    {
    }

    /// A walk keeps no id twice: every blob is fetched once.
    pub proof fn lemma_kept_once(self, first: int, second: int)
        requires
            self.wf(),
            0 <= first < self.cached().len(),
            0 <= second < self.cached().len(),
            self.cached()[first].0@ == self.cached()[second].0@,
        ensures
            first == second,
    {
        if first < second {
            assert(self.blobs@[first].0@ != self.blobs@[second].0@);
        } else if second < first {
            assert(self.blobs@[second].0@ != self.blobs@[first].0@);
        }
    }

    /// Once a walk is done, it keeps every blob that a tree it keeps refers
    /// to: the subtrees and the content of every node are there.
    pub proof fn lemma_done_walk_is_closed(self, at: int, id: Seq<char>)
        requires
            self.wf(),
            self.is_done(),
            0 <= at < self.cached().len(),
            refers(self.cached()[at].1, id),
        ensures
            !is_unnamed(self.cached(), id),
            blob_named(self.cached(), id) is Some,
    {
        assert(self.knows(id));
        if holds(self.queued(), id) {
            let i = choose|i: int| 0 <= i < self.queued().len() && (#[trigger] self.queued()[i])@
                == id;
            assert(false);
        }
    }

    /// A walk that starts at the tree with the given id.
    pub fn new(root: String) -> (walk: TreeWalk)
        ensures
            walk.wf(),
            walk.queued() == seq![root],
            walk.cached().len() == 0,
            walk.awaited() is None,
    {
        let mut queue: VecDeque<String> = VecDeque::new();
        queue.push_back(root);
        let walk = TreeWalk {
            queue,
            blobs: Vec::new(),
            positions: StringHashMap::new(),
            pending: None,
        };
        assert(walk.queue@ =~= seq![root]);
        walk
    }

    /// Tells whether the walk has looked at everything.
    pub fn done(&self) -> (done: bool)
        ensures
            done == self.is_done(),
    {
        self.queue.len() == 0 && self.pending.is_none()
    }

    /// Names the next blob to fetch: the first queued id that the walk does
    /// not keep yet. Ids before it are dropped from the queue, since their
    /// blobs are there already. Nothing is named once the queue is drained.
    /// A walk that waits for a blob names that blob again.
    pub fn next_id(&mut self) -> (next: Option<String>)
        requires
            old(self).wf(),
        ensures
            final(self).wf(),
            final(self).cached() == old(self).cached(),
            old(self).awaited() is Some ==> next is Some && Some(next->0@) == old(self).awaited()
                && final(self).queued() == old(self).queued() && final(self).awaited() == old(self).awaited(),
            old(self).awaited() is None ==> match next {
                Some(id) => exists|skipped: int|
                    {
                        &&& 0 <= skipped < old(self).queued().len()
                        &&& forall|j: int|
                            0 <= j < skipped ==> !is_unnamed(
                                old(self).cached(),
                                (#[trigger] old(self).queued()[j])@,
                            )
                        &&& is_unnamed(old(self).cached(), id@)
                        &&& id@ == old(self).queued()[skipped]@
                        &&& final(self).queued() == old(self).queued().skip(skipped + 1)
                        &&& final(self).awaited() == Some(id@)
                    },
                None => {
                    &&& forall|j: int|
                        0 <= j < old(self).queued().len() ==> !is_unnamed(
                            old(self).cached(),
                            (#[trigger] old(self).queued()[j])@,
                        )
                    &&& final(self).is_done()
                },
            },
    {
        match &self.pending {
            Some(id) => {
                return Some(id.clone());
            },
            None => {},
        }
        let ghost start = self.queue@;
        let ghost taken: int = 0;
        assert(start.skip(0) =~= start);
        loop
            invariant
                self.wf(),
                self.pending is None,
                old(self).pending is None,
                self.blobs@ == old(self).blobs@,
                self.positions@ == old(self).positions@,
                0 <= taken <= start.len(),
                start == old(self).queue@,
                self.queue@ == start.skip(taken),
                forall|j: int|
                    0 <= j < taken ==> !is_unnamed(self.blobs@, (#[trigger] start[j])@),
            decreases start.len() - taken,
        {
            let ghost before = self.queue@;
            match self.queue.pop_front() {
                None => {
                    return None;
                },
                Some(id) => {
                    assert(id == start[taken]);
                    assert(self.queue@ =~= start.skip(taken + 1));
                    match self.position(&id) {
                        Some(_) => {
                            proof {
                                assert forall|i: int, other: Seq<char>|
                                    0 <= i < self.blobs@.len() && #[trigger] refers(
                                        self.blobs@[i].1,
                                        other,
                                    ) implies self.knows(other) by {
                                    if holds(before, other) && is_unnamed(self.blobs@, other) {
                                        let k = choose|k: int|
                                            0 <= k < before.len() && (#[trigger] before[k])@
                                                == other;
                                        assert(k > 0);
                                        assert(self.queue@[k - 1]@ == other);
                                    }
                                }
                                taken = taken + 1;
                            }
                        },
                        None => {
                            let name = id.clone();
                            self.pending = Some(id);
                            proof {
                                assert forall|i: int, other: Seq<char>|
                                    0 <= i < self.blobs@.len() && #[trigger] refers(
                                        self.blobs@[i].1,
                                        other,
                                    ) implies self.knows(other) by {
                                    if holds(before, other) && other != id@ {
                                        let k = choose|k: int|
                                            0 <= k < before.len() && (#[trigger] before[k])@
                                                == other;
                                        assert(k > 0);
                                        assert(self.queue@[k - 1]@ == other);
                                    }
                                }
                                let skipped = taken;
                                assert({
                                    &&& 0 <= skipped < old(self).queued().len()
                                    &&& forall|j: int|
                                        0 <= j < skipped ==> !is_unnamed(
                                            old(self).cached(),
                                            (#[trigger] old(self).queued()[j])@,
                                        )
                                    &&& is_unnamed(old(self).cached(), name@)
                                    &&& name@ == old(self).queued()[skipped]@
                                    &&& self.queued() == old(self).queued().skip(skipped + 1)
                                    &&& self.awaited() == Some(name@)
                                });
                            }
                            return Some(name);
                        },
                    }
                },
            }
        }
    }

    /// Takes in the blob that the walk waits for, opened and checked, and
    /// with it the tree that its bytes hold, if it is a tree. A tree's
    /// children go to the end of the queue: for each node its subtree, then
    /// the blobs of its content. Any other blob, or a tree blob without its
    /// tree, is refused and changes nothing.
    pub fn record(&mut self, blob: PackedBlob, tree: Option<Tree>) -> (taken: Result<(), Error>)
        requires
            old(self).wf(),
        ensures
            final(self).wf(),
            match taken {
                Ok(_) => {
                    &&& old(self).awaited() == Some(blob.name())
                    &&& final(self).awaited() is None
                    &&& final(self).cached().len() == old(self).cached().len() + 1
                    &&& final(self).cached().drop_last() == old(self).cached()
                    &&& final(self).cached().last().0@ == blob.name()
                    &&& match blob.kind_of() {
                        BlobKind::Data => match final(self).cached().last().1 {
                            Blob::Data(bytes) => bytes@ == blob.content() && final(self).queued()
                                == old(self).queued(),
                            Blob::Tree(_) => false,
                        },
                        BlobKind::Tree => match tree {
                            Some(t) => final(self).cached().last().1 == Blob::Tree(t) && final(self).queued() == old(self).queued() + children(
                                t.nodes@,
                                t.nodes@.len() as int,
                            ),
                            None => false,
                        },
                    }
                },
                Err(e) => {
                    &&& e == Error::MalformedMetadata
                    &&& old(self).awaited() != Some(blob.name()) || (blob.kind_of()
                        == BlobKind::Tree && tree is None)
                    &&& final(self).cached() == old(self).cached()
                    &&& final(self).queued() == old(self).queued()
                    &&& final(self).awaited() == old(self).awaited()
                },
            },
    {
        let awaited = match &self.pending {
            Some(id) => *id == *blob.id(),
            None => false,
        };
        if !awaited {
            return Err(Error::MalformedMetadata);
        }
        let id = blob.id().clone();
        let ghost before_blobs = self.blobs@;
        let ghost before_queue = self.queue@;
        match blob.kind() {
            BlobKind::Data => {
                let bytes = blob.into_bytes();
                let ghost before_positions = self.positions@;
                self.positions.insert(id.clone(), self.blobs.len());
                self.blobs.push((id, Blob::Data(bytes)));
                self.pending = None;
                proof {
                    assert(self.blobs@.drop_last() =~= before_blobs);
                    lemma_kept_positions(before_blobs, self.blobs@, before_positions, self.positions@);
                    assert forall|i: int, other: Seq<char>|
                        0 <= i < self.blobs@.len() && #[trigger] refers(
                            self.blobs@[i].1,
                            other,
                        ) implies self.knows(other) by {
                        assert(i < before_blobs.len());
                        assert(refers(before_blobs[i].1, other));
                        if is_unnamed(self.blobs@, other) {
                            assert(self.blobs@[before_blobs.len() as int].0@ != other);
                            assert forall|j: int| 0 <= j < before_blobs.len() implies (
                            #[trigger] before_blobs[j]).0@ != other by {
                                assert(self.blobs@[j].0@ != other);
                            }
                        }
                    }
                }
                Ok(())
            },
            BlobKind::Tree => {
                let tree = match tree {
                    Some(tree) => tree,
                    None => {
                        return Err(Error::MalformedMetadata);
                    },
                };
                let mut at: usize = 0;
                while at < tree.nodes.len()
                    invariant
                        0 <= at <= tree.nodes@.len(),
                        self.blobs@ == before_blobs,
                        self.positions@ == old(self).positions@,
                        self.pending == old(self).pending,
                        self.queue@ == before_queue + children(tree.nodes@, at as int),
                    decreases tree.nodes@.len() - at,
                {
                    let node = &tree.nodes[at];
                    let ghost so_far = self.queue@;
                    match &node.subtree {
                        Some(subtree) => {
                            self.queue.push_back(subtree.clone());
                        },
                        None => {},
                    }
                    let ghost with_subtree = self.queue@;
                    match &node.content {
                        Some(content) => {
                            let mut k: usize = 0;
                            while k < content.len()
                                invariant
                                    0 <= k <= content@.len(),
                                    self.blobs@ == before_blobs,
                                    self.positions@ == old(self).positions@,
                                    self.pending == old(self).pending,
                                    self.queue@ == with_subtree + content@.subrange(0, k as int),
                                decreases content@.len() - k,
                            {
                                self.queue.push_back(content[k].clone());
                                assert(self.queue@ =~= with_subtree + content@.subrange(
                                    0,
                                    k + 1,
                                ));
                                k = k + 1;
                            }
                            assert(content@.subrange(0, content@.len() as int) =~= content@);
                        },
                        None => {},
                    }
                    assert(self.queue@ =~= so_far + node_children(*node));
                    assert(self.queue@ =~= before_queue + children(tree.nodes@, at + 1));
                    at = at + 1;
                }
                let ghost kept = Blob::Tree(tree);
                let ghost added = children(tree.nodes@, tree.nodes@.len() as int);
                let ghost before_positions = self.positions@;
                self.positions.insert(id.clone(), self.blobs.len());
                self.blobs.push((id, Blob::Tree(tree)));
                self.pending = None;
                proof {
                    assert(self.blobs@.drop_last() =~= before_blobs);
                    lemma_kept_positions(before_blobs, self.blobs@, before_positions, self.positions@);
                    assert forall|i: int, other: Seq<char>|
                        0 <= i < self.blobs@.len() && #[trigger] refers(
                            self.blobs@[i].1,
                            other,
                        ) implies self.knows(other) by {
                        lemma_holds_either(before_queue, added, other);
                        if i < before_blobs.len() {
                            assert(refers(before_blobs[i].1, other));
                        }
                        if is_unnamed(self.blobs@, other) {
                            assert(self.blobs@[before_blobs.len() as int].0@ != other);
                            assert forall|j: int| 0 <= j < before_blobs.len() implies (
                            #[trigger] before_blobs[j]).0@ != other by {
                                assert(self.blobs@[j].0@ != other);
                            }
                        }
                    }
                }
                Ok(())
            },
        }
    }

    /// The files of the trees that a finished walk has taken in, tree after
    /// tree and node after node. Each file node that lists content gives
    /// one file, under the last component of its name, holding the content
    /// of its data blobs in order. Every blob that a tree refers to is
    /// there.
    pub fn files(&self) -> (files: Vec<RestoredFile>)
        requires
            self.wf(),
            self.is_done(),
        ensures
            files_of(files@) == files_of_blobs(self.cached(), self.cached().len() as int),
            forall|at: int, id: Seq<char>|
                0 <= at < self.cached().len() && #[trigger] refers(self.cached()[at].1, id)
                    ==> blob_named(self.cached(), id) is Some,
    {
        proof {
            assert forall|at: int, id: Seq<char>|
                0 <= at < self.cached().len() && #[trigger] refers(
                    self.cached()[at].1,
                    id,
                ) implies blob_named(self.cached(), id) is Some by {
                self.lemma_done_walk_is_closed(at, id);
            }
        }
        let mut files: Vec<RestoredFile> = Vec::new();
        let mut index: usize = 0;
        assert(files_of(files@) =~= Seq::empty());
        while index < self.blobs.len()
            invariant
                self.wf(),
                0 <= index <= self.blobs@.len(),
                files_of(files@) == files_of_blobs(self.blobs@, index as int),
            decreases self.blobs@.len() - index,
        {
            match &self.blobs[index].1 {
                Blob::Tree(tree) => {
                    let ghost before = files_of(files@);
                    let mut more = self.tree_files(tree);
                    let ghost added = files_of(more@);
                    files.append(&mut more);
                    assert(files_of(files@) =~= before + added);
                },
                Blob::Data(_) => {
                    assert(files_of(files@) + Seq::<(Seq<char>, Seq<u8>)>::empty() =~= files_of(
                        files@,
                    ));
                },
            }
            index = index + 1;
        }
        files
    }
}

impl Restic {
    /// A repository with the given config, master key and merged index, and
    /// no snapshots loaded yet.
    pub fn from_folder(path: String, config: Config, masterkey: Masterkey, index: Index) -> (repository:
        Restic)
        ensures
            repository.path == path,
            repository.config == config,
            repository.masterkey == masterkey,
            repository.index == index,
            repository.snapshots@.len() == 0,
    {
        Restic { path, config, masterkey, index, snapshots: Vec::new() }
    }

    /// Adds the snapshots that were read from `snapshots/`.
    pub fn load_all_snapshots(&mut self, loaded: Vec<Snapshot>)
        ensures
            final(self).snapshots@ == old(self).snapshots@ + loaded@,
            final(self).path == old(self).path,
            final(self).config == old(self).config,
            final(self).masterkey == old(self).masterkey,
            final(self).index == old(self).index,
    {
        let mut loaded = loaded;
        self.snapshots.append(&mut loaded);
    }

    /// Adds everything that was read from the repository.
    pub fn load_all(&mut self, loaded: Vec<Snapshot>)
        ensures
            final(self).snapshots@ == old(self).snapshots@ + loaded@,
            final(self).path == old(self).path,
            final(self).config == old(self).config,
            final(self).masterkey == old(self).masterkey,
            final(self).index == old(self).index,
    {
        self.load_all_snapshots(loaded);
    }

    /// Finds the snapshot with the latest time, the last one among equals.
    pub fn latest_snapshot(&self) -> (at: Option<usize>)
        ensures
            self.snapshots@.len() == 0 ==> at is None,
            self.snapshots@.len() > 0 ==> at is Some && at->0 < self.snapshots@.len() && at->0
                == latest_of(ranks_of(times_of(self.snapshots@))),
    {
        let mut times: Vec<Timestamp> = Vec::new();
        let mut index: usize = 0;
        while index < self.snapshots.len()
            invariant
                0 <= index <= self.snapshots@.len(),
                times@.len() == index,
                forall|j: int| 0 <= j < index ==> times@[j] == self.snapshots@[j].time,
            decreases self.snapshots@.len() - index,
        {
            times.push(self.snapshots[index].time);
            index = index + 1;
        }
        assert(times@ =~= times_of(self.snapshots@));
        latest(&times)
    }

    /// Starts a walk at the root tree of the latest snapshot.
    pub fn start_walk(&self) -> (walk: TreeWalk)
        requires
            self.snapshots@.len() > 0,
        ensures
            walk.wf(),
            walk.queued().len() == 1,
            walk.queued()[0]@ == self.snapshots@[latest_of(
                ranks_of(times_of(self.snapshots@)),
            )].tree@,
            walk.cached().len() == 0,
            walk.awaited() is None,
    {
        match self.latest_snapshot() {
            Some(at) => TreeWalk::new(self.snapshots[at].tree.clone()),
            None => TreeWalk::new(String::new()),
        }
    }

    /// Computes where the pack with the given id lies, relative to the
    /// repository.
    pub fn resolve_path(&self, chunk_id: &str) -> (path: String)
        requires
            chunk_id@.len() >= MIN_PACK_ID_LEN,
        ensures
            path@ == pack_path(chunk_id@),
    {
        let dir = join_path("data", chunk_id.substring_char(0, 2));
        join_path(dir.as_str(), chunk_id)
    }

    /// Says where to find the blob with the given id: the first pack of the
    /// index that holds it. A blob that the index does not hold, or a pack
    /// whose id is too short for the data store, is malformed.
    pub fn locate(&self, id: &str) -> (fetch: Result<Fetch, Error>)
        ensures
            match fetch {
                Ok(f) => {
                    &&& is_first_blob(self.index.packs@, id@, f.pack as int, f.blob as int)
                    &&& self.index.packs@[f.pack as int].id@.len() >= MIN_PACK_ID_LEN
                    &&& f.pack_path@ == pack_path(self.index.packs@[f.pack as int].id@)
                },
                Err(e) => {
                    &&& e == Error::MalformedMetadata
                    &&& !has_blob(self.index.packs@, id@) || exists|p: int, b: int|
                        is_first_blob(self.index.packs@, id@, p, b) && self.index.packs@[p].id@.len()
                            < MIN_PACK_ID_LEN
                },
            },
    {
        match self.index.find_blob(id) {
            None => Err(Error::MalformedMetadata),
            Some((pack, blob)) => {
                let pack_id = self.index.packs[pack].id.as_str();
                if pack_id.unicode_len() < MIN_PACK_ID_LEN {
                    return Err(Error::MalformedMetadata);
                }
                Ok(Fetch { pack_path: self.resolve_path(pack_id), pack, blob })
            },
        }
    }

    /// Gives the files that a finished walk has gathered, to be written
    /// flat into the output directory. Directories are passed over. Every
    /// blob that a tree refers to is there.
    pub fn dump_all_files(&self, walk: &TreeWalk) -> (files: Vec<RestoredFile>)
        requires
            walk.wf(),
            walk.is_done(),
        ensures
            files_of(files@) == files_of_blobs(walk.cached(), walk.cached().len() as int),
            forall|at: int, id: Seq<char>|
                0 <= at < walk.cached().len() && #[trigger] refers(walk.cached()[at].1, id)
                    ==> blob_named(walk.cached(), id) is Some,
    {
        walk.files()
    }
}

} // verus!
