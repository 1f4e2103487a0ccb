//! The index: which pack holds which blob, and where.

use crate::error::bytes_or_error;
use crate::error::Error;
use super::keys::Masterkey;
use vstd::prelude::*;
use vstd::string::StringExecFns;

verus! {

#[derive(Debug)]
pub struct Index {
    pub supersedes: Vec<String>,
    pub packs: Vec<PackIndex>,
}

/// One pack and the blobs it holds.
#[derive(Debug)]
pub struct PackIndex {
    pub id: String,
    pub blobs: Vec<BlobIndex>,
}

/// Where one blob lies in its pack. A blob with an uncompressed length is
/// stored compressed.
#[derive(Debug)]
pub struct BlobIndex {
    pub id: String,
    /// `"data"` or `"tree"`.
    pub data_type: String,
    pub offset: usize,
    pub length: usize,
    pub uncompressed_length: Option<usize>,
}

/// Whether blob number `blob` of pack number `pack` has the given id.
pub open spec fn holds_blob(packs: Seq<PackIndex>, id: Seq<char>, pack: int, blob: int) -> bool {
    &&& 0 <= pack < packs.len()
    &&& 0 <= blob < packs[pack].blobs@.len()
    &&& packs[pack].blobs@[blob].id@ == id
}

/// Whether some blob of some pack has the given id.
pub open spec fn has_blob(packs: Seq<PackIndex>, id: Seq<char>) -> bool {
    exists|pack: int, blob: int| holds_blob(packs, id, pack, blob)
}

/// Whether blob number `blob` of pack number `pack` is the first with the
/// given id, going through the packs in order and through each pack's blobs
/// in order.
pub open spec fn is_first_blob(packs: Seq<PackIndex>, id: Seq<char>, pack: int, blob: int) -> bool {
    &&& holds_blob(packs, id, pack, blob)
    &&& forall|p: int, b: int| #[trigger]
        holds_blob(packs, id, p, b) ==> pack < p || (pack == p && blob <= b)
}

/// The superseded ids of the first `upto` indexes, one list after the
/// other.
pub open spec fn all_supersedes(indexes: Seq<Index>, upto: int) -> Seq<String>
    decreases upto,
{
    if upto <= 0 {
        Seq::empty()
    } else {
        all_supersedes(indexes, upto - 1) + indexes[upto - 1].supersedes@
    }
}

/// The packs of the first `upto` indexes, one list after the other.
pub open spec fn all_packs(indexes: Seq<Index>, upto: int) -> Seq<PackIndex>
    decreases upto,
{
    if upto <= 0 {
        Seq::empty()
    } else {
        all_packs(indexes, upto - 1) + indexes[upto - 1].packs@
    }
}

impl Index {
    /// Decodes the JSON document of one index file from its contents.
    pub fn from_file(masterkey: &Masterkey, file: &[u8]) -> (json: Result<Vec<u8>, Error>)
        ensures
            bytes_or_error(json) == masterkey.unpacked_tagged(file@),
    {
        masterkey.decoder()?.decrypt_and_decompress(file)
    }

    /// Merges the indexes of all index files into one, keeping their order.
    pub fn from_folder(indexes: Vec<Index>) -> (merged: Index)
        ensures
            merged.supersedes@ == all_supersedes(indexes@, indexes@.len() as int),
            merged.packs@ == all_packs(indexes@, indexes@.len() as int),
    {
        let ghost all = indexes@;
        let mut merged = Index { supersedes: Vec::new(), packs: Vec::new() };
        for index in it: indexes.into_iter()
            invariant
                it.seq() == all,
                merged.supersedes@ == all_supersedes(all, it.index() as int),
                merged.packs@ == all_packs(all, it.index() as int),
        {
            let mut index = index;
            merged.supersedes.append(&mut index.supersedes);
            merged.packs.append(&mut index.packs);
        }
        merged
    }

    /// Searches the index for a blob: the numbers of the first pack that
    /// holds it and of the blob in that pack.
    pub fn find_blob(&self, id: &str) -> (found: Option<(usize, usize)>)
        ensures
            match found {
                Some((pack, blob)) => is_first_blob(self.packs@, id@, pack as int, blob as int),
                None => !has_blob(self.packs@, id@),
            },
    {
        let wanted = String::from_str(id);
        let mut pack: usize = 0;
        while pack < self.packs.len()
            invariant
                wanted@ == id@,
                0 <= pack <= self.packs@.len(),
                forall|p: int, b: int| #[trigger]
                    holds_blob(self.packs@, id@, p, b) ==> pack <= p,
            decreases self.packs@.len() - pack,
        {
            let blobs = &self.packs[pack].blobs;
            let mut blob: usize = 0;
            while blob < blobs.len()
                invariant
                    wanted@ == id@,
                    0 <= pack < self.packs@.len(),
                    blobs == &self.packs@[pack as int].blobs,
                    0 <= blob <= blobs@.len(),
                    forall|p: int, b: int| #[trigger]
                        holds_blob(self.packs@, id@, p, b) ==> pack < p || (pack == p && blob
                            <= b),
                decreases blobs@.len() - blob,
            {
                if blobs[blob].id == wanted {
                    return Some((pack, blob));
                }
                blob = blob + 1;
            }
            pack = pack + 1;
        }
        None
    }

    /// Searches the index for the pack that holds a blob: the first such
    /// pack, and the blob's first entry in it.
    pub fn find_pack(&self, id: &str) -> (found: Option<(&PackIndex, &BlobIndex)>)
        ensures
            match found {
                Some((pack, blob)) => exists|p: int, b: int|
                    is_first_blob(self.packs@, id@, p, b) && *pack == self.packs@[p] && *blob
                        == self.packs@[p].blobs@[b],
                None => !has_blob(self.packs@, id@),
            },
    {
        match self.find_blob(id) {
            Some((pack, blob)) => Some((&self.packs[pack], &self.packs[pack].blobs[blob])),
            None => None,
        }
    }
}

} // verus!
