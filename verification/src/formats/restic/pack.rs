//! Packs and the blobs in them.
//!
//! A pack is `blob 1 || ... || blob n || header || header length`, each
//! blob and the header in an envelope of its own, and the header length a
//! little-endian `u32`. The header has one entry per blob: a type byte, the
//! length of the sealed blob, for a compressed blob the length of its
//! plaintext, and the SHA-256 of its plaintext.

use crate::codec::hex_encode;
use crate::codec::hex_encoded;
use crate::codec::le_u32;
use crate::codec::read_le_u32;
use crate::codec::same_bytes;
use crate::crypto::sha256;
use crate::crypto::sha256_digest;
use crate::error::Error;
use super::error::Error as FormatError;
use super::index::BlobIndex;
use super::keys::Masterkey;
use vstd::prelude::*;
use vstd::slice::slice_subrange;
use vstd::string::StringExecFns;

verus! {

pub const HASH_LEN: usize = 32;

/// The length of the pack's last field, the header length.
pub const LENGTH_FIELD_LEN: usize = 4;

/// The length of a header entry for a blob that is stored as it is.
pub const PLAIN_ENTRY_LEN: usize = 37;

/// The length of a header entry for a blob that is stored compressed.
pub const COMPRESSED_ENTRY_LEN: usize = 41;

/// A decoded blob: file content, or a tree of nodes.
#[derive(Debug)]
pub enum Blob {
    Data(Vec<u8>),
    Tree(Tree),
}

#[derive(Debug)]
pub struct Tree {
    pub nodes: Vec<Node>,
}

/// A file or a directory of a tree. A file lists the data blobs that make
/// up its content, in order; a directory names its subtree.
#[derive(Debug)]
pub struct Node {
    pub name: String,
    pub node_type: NodeType,
    pub mode: u32,
    pub mtime: String,
    pub atime: String,
    pub ctime: String,
    pub uid: u32,
    pub gid: u32,
    pub user: String,
    pub group: String,
    pub inode: u64,
    pub device_id: u64,
    pub size: Option<u64>,
    pub extended_attributes: Option<Vec<Vec<(String, String)>>>,
    pub content: Option<Vec<String>>,
    pub subtree: Option<String>,
    pub links: Option<u64>,
}

#[derive(Debug, Clone, Copy, PartialEq, Eq, Structural)]
pub enum NodeType {
    Dir,
    File,
}

/// What a blob holds.
#[derive(Debug, Clone, Copy, PartialEq, Eq, Structural)]
pub enum BlobKind {
    Data,
    Tree,
}

/// One entry of a pack's header.
#[derive(Debug)]
pub enum BlobType {
    Data { encrypted_length: usize, plaintext_hash: [u8; 32] },
    Tree { encrypted_length: usize, plaintext_hash: [u8; 32] },
    CompressedData { encrypted_length: usize, plaintext_length: usize, plaintext_hash: [u8; 32] },
    CompressedTree { encrypted_length: usize, plaintext_length: usize, plaintext_hash: [u8; 32] },
}

/// What an entry of a pack's header says.
pub struct BlobTypeView {
    pub kind: BlobKind,
    pub encrypted_length: usize,
    /// The length of the plaintext, for a blob that is stored compressed.
    pub plaintext_length: Option<usize>,
    pub plaintext_hash: Seq<u8>,
}

impl View for BlobType {
    type V = BlobTypeView;

    open spec fn view(&self) -> BlobTypeView {
        match self {
            BlobType::Data { encrypted_length, plaintext_hash } => BlobTypeView {
                kind: BlobKind::Data,
                encrypted_length: *encrypted_length,
                plaintext_length: None,
                plaintext_hash: plaintext_hash@,
            },
            BlobType::Tree { encrypted_length, plaintext_hash } => BlobTypeView {
                kind: BlobKind::Tree,
                encrypted_length: *encrypted_length,
                plaintext_length: None,
                plaintext_hash: plaintext_hash@,
            },
            BlobType::CompressedData {
                encrypted_length,
                plaintext_length,
                plaintext_hash,
            } => BlobTypeView {
                kind: BlobKind::Data,
                encrypted_length: *encrypted_length,
                plaintext_length: Some(*plaintext_length),
                plaintext_hash: plaintext_hash@,
            },
            BlobType::CompressedTree {
                encrypted_length,
                plaintext_length,
                plaintext_hash,
            } => BlobTypeView {
                kind: BlobKind::Tree,
                encrypted_length: *encrypted_length,
                plaintext_length: Some(*plaintext_length),
                plaintext_hash: plaintext_hash@,
            },
        }
    }
}

/// What each entry of a list says.
pub open spec fn entries_of(entries: Seq<BlobType>) -> Seq<BlobTypeView> {
    Seq::new(entries.len(), |i: int| entries[i]@)
}

/// The length of a header entry with the given type byte.
pub open spec fn entry_len(tag: u8) -> int {
    if tag <= 1 {
        PLAIN_ENTRY_LEN as int
    } else {
        COMPRESSED_ENTRY_LEN as int
    }
}

/// The entry at the front of a header. The type byte is 0 for data, 1 for a
/// tree, 2 for compressed data and 3 for a compressed tree; there is no
/// other. An entry that the bytes do not hold in full is truncated.
pub open spec fn entry_at(bytes: Seq<u8>) -> Result<BlobTypeView, Error> {
    let tag = bytes[0];
    if tag > 3 {
        Err(Error::Restic(FormatError::InvalidBlobType(tag)))
    } else if bytes.len() < entry_len(tag) {
        Err(Error::Truncated)
    } else {
        Ok(
            BlobTypeView {
                kind: if tag == 0 || tag == 2 {
                    BlobKind::Data
                } else {
                    BlobKind::Tree
                },
                encrypted_length: le_u32(bytes.subrange(1, 5)) as usize,
                plaintext_length: if tag >= 2 {
                    Some(le_u32(bytes.subrange(5, 9)) as usize)
                } else {
                    None
                },
                plaintext_hash: bytes.subrange(entry_len(tag) - HASH_LEN, entry_len(tag)),
            },
        )
    }
}

/// The entries of a decrypted header, one after the other up to the last
/// byte.
pub open spec fn entries_in(bytes: Seq<u8>) -> Result<Seq<BlobTypeView>, Error>
    decreases bytes.len(),
{
    if bytes.len() == 0 {
        Ok(Seq::empty())
    } else {
        match entry_at(bytes) {
            Err(e) => Err(e),
            Ok(first) => match entries_in(bytes.skip(entry_len(bytes[0]))) {
                Err(e) => Err(e),
                Ok(more) => Ok(seq![first] + more),
            },
        }
    }
}

/// Copies 32 bytes into an array.
fn hash_array(bytes: &[u8]) -> (hash: [u8; 32])
    requires
        bytes@.len() == HASH_LEN,
    ensures
        hash@ == bytes@,
{
    let mut hash: [u8; 32] = [0u8; 32];
    let mut index: usize = 0;
    while index < HASH_LEN
        invariant
            0 <= index <= HASH_LEN,
            bytes@.len() == HASH_LEN,
            forall|j: int| 0 <= j < index ==> hash@[j] == bytes@[j],
        decreases HASH_LEN - index,
    {
        hash[index] = bytes[index];
        index = index + 1;
    }
    assert(hash@ =~= bytes@);
    hash
}

/// Reads the entry at the front of a header.
pub fn read_entry(bytes: &[u8]) -> (entry: Result<BlobType, Error>)
    requires
        bytes@.len() > 0,
    ensures
        match entry {
            Ok(e) => entry_at(bytes@) == Ok::<BlobTypeView, Error>(e@),
            Err(e) => entry_at(bytes@) == Err::<BlobTypeView, Error>(e),
        },
{
    let tag = bytes[0];
    if tag > 3 {
        return Err(Error::Restic(FormatError::InvalidBlobType(tag)));
    }
    let len: usize = if tag <= 1 {
        PLAIN_ENTRY_LEN
    } else {
        COMPRESSED_ENTRY_LEN
    };
    if bytes.len() < len {
        return Err(Error::Truncated);
    }
    let encrypted_length = read_le_u32(slice_subrange(bytes, 1, 5)) as usize;
    let plaintext_hash = hash_array(slice_subrange(bytes, len - HASH_LEN, len));
    if tag == 0 {
        Ok(BlobType::Data { encrypted_length, plaintext_hash })
    } else if tag == 1 {
        Ok(BlobType::Tree { encrypted_length, plaintext_hash })
    } else {
        let plaintext_length = read_le_u32(slice_subrange(bytes, 5, 9)) as usize;
        if tag == 2 {
            Ok(BlobType::CompressedData { encrypted_length, plaintext_length, plaintext_hash })
        } else {
            Ok(BlobType::CompressedTree { encrypted_length, plaintext_length, plaintext_hash })
        }
    }
}

/// Reads the entries of a decrypted pack header.
pub fn read_header(bytes: &[u8]) -> (entries: Result<Vec<BlobType>, Error>)
    ensures
        match entries {
            Ok(list) => entries_in(bytes@) == Ok::<Seq<BlobTypeView>, Error>(entries_of(list@)),
            Err(e) => entries_in(bytes@) == Err::<Seq<BlobTypeView>, Error>(e),
        },
{
    let mut entries: Vec<BlobType> = Vec::new();
    let mut at: usize = 0;
    assert(entries_of(entries@) =~= Seq::empty());
    assert(bytes@.skip(0) =~= bytes@);
    while at < bytes.len()
        invariant
            0 <= at <= bytes@.len(),
            entries_in(bytes@) == match entries_in(bytes@.skip(at as int)) {
                Ok(more) => Ok(entries_of(entries@) + more),
                Err(e) => Err(e),
            },
        decreases bytes@.len() - at,
    {
        let rest = slice_subrange(bytes, at, bytes.len());
        assert(rest@ =~= bytes@.skip(at as int));
        let entry = read_entry(rest)?;
        let len: usize = if rest[0] <= 1 {
            PLAIN_ENTRY_LEN
        } else {
            COMPRESSED_ENTRY_LEN
        };
        let ghost before = entries_of(entries@);
        let ghost view = entry@;
        entries.push(entry);
        proof {
            assert(entries_of(entries@) =~= before + seq![view]);
            assert(rest@.skip(len as int) =~= bytes@.skip(at + len));
            match entries_in(bytes@.skip(at + len)) {
                Ok(more) => {
                    assert(before + (seq![view] + more) =~= (before + seq![view]) + more);
                },
                Err(_) => {},
            }
        }
        at = at + len;
    }
    assert(entries_of(entries@) + Seq::<BlobTypeView>::empty() =~= entries_of(entries@));
    Ok(entries)
}

/// A blob that has been opened and checked: its id is the hexadecimal
/// SHA-256 of its bytes.
#[derive(Debug)]
pub struct PackedBlob {
    id: String,
    digest: Vec<u8>,
    kind: BlobKind,
    bytes: Vec<u8>,
}

impl PackedBlob {
    #[verifier::type_invariant]
    spec fn checked(self) -> bool {
        &&& self.digest@ == sha256(self.bytes@)
        &&& self.id@ == hex_encoded(self.digest@)
    }

    /// The blob's bytes.
    pub closed spec fn content(&self) -> Seq<u8> {
        self.bytes@
    }

    /// What the blob holds.
    pub closed spec fn kind_of(&self) -> BlobKind {
        self.kind
    }

    /// The blob's id.
    pub closed spec fn name(&self) -> Seq<char> {
        self.id@
    }

    /// Hashes a blob's bytes and names the blob after the hash.
    pub fn seal(kind: BlobKind, bytes: Vec<u8>) -> (blob: PackedBlob)
        ensures
            blob.content() == bytes@,
            blob.kind_of() == kind,
            blob.name() == hex_encoded(sha256(bytes@)),
    {
        let digest = sha256_digest(bytes.as_slice());
        let id = hex_encode(digest.as_slice());
        PackedBlob { id, digest, kind, bytes }
    }

    /// The blob's id, which is the hexadecimal SHA-256 of its bytes.
    pub fn id(&self) -> (id: &String)
        ensures
            id@ == self.name(),
            self.name() == hex_encoded(sha256(self.content())),
    {
        proof {
            use_type_invariant(self);
        }
        &self.id
    }

    /// The SHA-256 of the blob's bytes.
    pub fn digest(&self) -> (digest: &Vec<u8>)
        ensures
            digest@ == sha256(self.content()),
    {
        proof {
            use_type_invariant(self);
        }
        &self.digest
    }

    pub fn kind(&self) -> (kind: BlobKind)
        ensures
            kind == self.kind_of(),
    {
        self.kind
    }

    pub fn bytes(&self) -> (bytes: &Vec<u8>)
        ensures
            bytes@ == self.content(),
    {
        &self.bytes
    }

    /// Gives up the blob for its bytes.
    pub fn into_bytes(self) -> (bytes: Vec<u8>)
        ensures
            bytes@ == self.content(),
            self.name() == hex_encoded(sha256(bytes@)),
    {
        proof {
            use_type_invariant(&self);
        }
        self.bytes
    }
}

/// The plaintext of a sealed blob under a master key: opened, and
/// decompressed where a plaintext length says that it is compressed. A
/// plaintext of another length than announced does not match.
pub open spec fn plaintext(masterkey: Masterkey, sealed: Seq<u8>, plaintext_length: Option<usize>) -> Result<
    Seq<u8>,
    Error,
> {
    match plaintext_length {
        None => masterkey.opened(sealed),
        Some(expected) => match masterkey.unpacked(sealed) {
            Err(e) => Err(e),
            Ok(plain) => if plain.len() == expected {
                Ok(plain)
            } else {
                Err(Error::MismatchedHash)
            },
        },
    }
}

/// The blob that an index entry points at in the contents of its pack. An
/// entry that points outside the pack is truncated. The blob's plaintext
/// must hash to the id in the entry, and the entry must say `"data"` or
/// `"tree"`.
pub open spec fn indexed_blob(masterkey: Masterkey, file: Seq<u8>, index: BlobIndex) -> Result<
    (BlobKind, Seq<u8>),
    Error,
> {
    if index.length > file.len() || index.offset > file.len() - index.length {
        Err(Error::Truncated)
    } else {
        match plaintext(
            masterkey,
            file.subrange(index.offset as int, index.offset + index.length),
            index.uncompressed_length,
        ) {
            Err(e) => Err(e),
            Ok(plain) => if hex_encoded(sha256(plain)) != index.id@ {
                Err(Error::MismatchedHash)
            } else if index.data_type@ == "data"@ {
                Ok((BlobKind::Data, plain))
            } else if index.data_type@ == "tree"@ {
                Ok((BlobKind::Tree, plain))
            } else {
                Err(Error::UnsupportedFeature)
            },
        }
    }
}

/// The blob that a header entry describes, from its sealed bytes. Its
/// plaintext must hash to the hash in the entry.
pub open spec fn listed_blob(masterkey: Masterkey, sealed: Seq<u8>, entry: BlobTypeView) -> Result<
    (BlobKind, Seq<u8>),
    Error,
> {
    match plaintext(masterkey, sealed, entry.plaintext_length) {
        Err(e) => Err(e),
        Ok(plain) => if sha256(plain) == entry.plaintext_hash {
            Ok((entry.kind, plain))
        } else {
            Err(Error::MismatchedHash)
        },
    }
}

/// The blobs of a pack and where the next one begins.
pub struct Unpacked {
    pub blobs: Seq<(BlobKind, Seq<u8>)>,
    pub next: int,
}

/// The blobs that the first `upto` entries of a header describe: they lie
/// one after the other from the start of the pack, each as long as its
/// entry says. One that the pack does not hold in full is truncated.
pub open spec fn listed_blobs(
    masterkey: Masterkey,
    file: Seq<u8>,
    entries: Seq<BlobTypeView>,
    upto: int,
) -> Result<Unpacked, Error>
    decreases upto,
{
    if upto <= 0 {
        Ok(Unpacked { blobs: Seq::empty(), next: 0 })
    } else {
        match listed_blobs(masterkey, file, entries, upto - 1) {
            Err(e) => Err(e),
            Ok(before) => {
                let entry = entries[upto - 1];
                if before.next + entry.encrypted_length > file.len() {
                    Err(Error::Truncated)
                } else {
                    match listed_blob(
                        masterkey,
                        file.subrange(before.next, before.next + entry.encrypted_length),
                        entry,
                    ) {
                        Err(e) => Err(e),
                        Ok(blob) => Ok(
                            Unpacked {
                                blobs: before.blobs.push(blob),
                                next: before.next + entry.encrypted_length,
                            },
                        ),
                    }
                }
            },
        }
    }
}

/// The entries of a pack's header: the last four bytes of the pack give the
/// length of the sealed header, which lies before them. A pack too short for
/// either is truncated.
pub open spec fn header_of(masterkey: Masterkey, file: Seq<u8>) -> Result<
    Seq<BlobTypeView>,
    Error,
> {
    if file.len() < LENGTH_FIELD_LEN {
        Err(Error::Truncated)
    } else {
        let header_len = le_u32(file.skip(file.len() - LENGTH_FIELD_LEN));
        if header_len + LENGTH_FIELD_LEN > file.len() {
            Err(Error::Truncated)
        } else {
            match masterkey.opened(
                file.subrange(
                    file.len() - LENGTH_FIELD_LEN - header_len,
                    file.len() - LENGTH_FIELD_LEN,
                ),
            ) {
                Err(e) => Err(e),
                Ok(header) => entries_in(header),
            }
        }
    }
}

/// The blobs of a pack, as its header lists them.
pub open spec fn blobs_of_pack(masterkey: Masterkey, file: Seq<u8>) -> Result<
    Seq<(BlobKind, Seq<u8>)>,
    Error,
> {
    match header_of(masterkey, file) {
        Err(e) => Err(e),
        Ok(entries) => match listed_blobs(masterkey, file, entries, entries.len() as int) {
            Err(e) => Err(e),
            Ok(unpacked) => Ok(unpacked.blobs),
        },
    }
}

/// What each blob of a list is and holds.
pub open spec fn blobs_of(blobs: Seq<PackedBlob>) -> Seq<(BlobKind, Seq<u8>)> {
    Seq::new(blobs.len(), |i: int| (blobs[i].kind_of(), blobs[i].content()))
}

/// A failure among the first blobs is the failure of the whole.
pub proof fn lemma_failure_stays(
    masterkey: Masterkey,
    file: Seq<u8>,
    entries: Seq<BlobTypeView>,
    failed: int,
    upto: int,
)
    requires
        0 <= failed <= upto,
        listed_blobs(masterkey, file, entries, failed) is Err,
    ensures
        listed_blobs(masterkey, file, entries, upto) == listed_blobs(
            masterkey,
            file,
            entries,
            failed,
        ),
    decreases upto - failed,
{
    if failed < upto {
        lemma_failure_stays(masterkey, file, entries, failed, upto - 1);
    }
}

/// Opens a sealed blob and decompresses it where a plaintext length says
/// that it is compressed.
pub fn open_blob(masterkey: &Masterkey, sealed: &[u8], plaintext_length: Option<usize>) -> (plain:
    Result<Vec<u8>, Error>)
    ensures
        crate::error::bytes_or_error(plain) == plaintext(*masterkey, sealed@, plaintext_length),
{
    let decoder = masterkey.decoder()?;
    match plaintext_length {
        None => decoder.decrypt(sealed),
        Some(expected) => {
            let plain = decoder.decrypt_and_decompress_packed(sealed)?;
            if plain.len() == expected {
                Ok(plain)
            } else {
                Err(Error::MismatchedHash)
            }
        },
    }
}

impl Blob {
    /// Opens and checks the blob that an index entry points at, from the
    /// contents of its pack.
    pub fn from_file_blobindex(masterkey: &Masterkey, file: &[u8], index: &BlobIndex) -> (blob:
        Result<PackedBlob, Error>)
        ensures
            match blob {
                Ok(b) => indexed_blob(*masterkey, file@, *index) == Ok::<
                    (BlobKind, Seq<u8>),
                    Error,
                >((b.kind_of(), b.content())) && b.name() == index.id@,
                Err(e) => indexed_blob(*masterkey, file@, *index) == Err::<
                    (BlobKind, Seq<u8>),
                    Error,
                >(e),
            },
    {
        if index.length > file.len() || index.offset > file.len() - index.length {
            return Err(Error::Truncated);
        }
        let sealed = slice_subrange(file, index.offset, index.offset + index.length);
        let plain = open_blob(masterkey, sealed, index.uncompressed_length)?;
        let is_data = index.data_type == String::from_str("data");
        let is_tree = index.data_type == String::from_str("tree");
        let kind = if is_data {
            BlobKind::Data
        } else {
            BlobKind::Tree
        };
        let blob = PackedBlob::seal(kind, plain);
        if *blob.id() != index.id {
            return Err(Error::MismatchedHash);
        }
        if is_data || is_tree {
            Ok(blob)
        } else {
            Err(Error::UnsupportedFeature)
        }
    }

    /// Opens and checks every blob of a pack from the pack's contents, going
    /// by the pack's own header. The blobs come back in the order of the
    /// header.
    pub fn from_file_header(masterkey: &Masterkey, file: &[u8]) -> (blobs: Result<
        Vec<PackedBlob>,
        Error,
    >)
        ensures
            match blobs {
                Ok(list) => blobs_of_pack(*masterkey, file@) == Ok::<
                    Seq<(BlobKind, Seq<u8>)>,
                    Error,
                >(blobs_of(list@)),
                Err(e) => blobs_of_pack(*masterkey, file@) == Err::<
                    Seq<(BlobKind, Seq<u8>)>,
                    Error,
                >(e),
            },
    {
        if file.len() < LENGTH_FIELD_LEN {
            return Err(Error::Truncated);
        }
        let body_len = file.len() - LENGTH_FIELD_LEN;
        let field = slice_subrange(file, body_len, file.len());
        assert(field@ =~= file@.skip(file@.len() - LENGTH_FIELD_LEN));
        let header_len = read_le_u32(field) as usize;
        if header_len > body_len {
            return Err(Error::Truncated);
        }
        let sealed_header = slice_subrange(file, body_len - header_len, body_len);
        let header = masterkey.decoder()?.decrypt(sealed_header)?;
        let entries = read_header(header.as_slice())?;
        let ghost views = entries_of(entries@);
        let mut blobs: Vec<PackedBlob> = Vec::new();
        let mut at: usize = 0;
        let mut index: usize = 0;
        assert(blobs_of(blobs@) =~= Seq::empty());
        while index < entries.len()
            invariant
                0 <= index <= entries@.len(),
                views == entries_of(entries@),
                header_of(*masterkey, file@) == Ok::<Seq<BlobTypeView>, Error>(views),
                0 <= at <= file@.len(),
                listed_blobs(*masterkey, file@, views, index as int) == Ok::<Unpacked, Error>(
                    Unpacked { blobs: blobs_of(blobs@), next: at as int },
                ),
            decreases entries@.len() - index,
        {
            let (kind, encrypted_length, plaintext_length, plaintext_hash) = match &entries[index] {
                BlobType::Data { encrypted_length, plaintext_hash } => (
                    BlobKind::Data,
                    *encrypted_length,
                    None,
                    plaintext_hash,
                ),
                BlobType::Tree { encrypted_length, plaintext_hash } => (
                    BlobKind::Tree,
                    *encrypted_length,
                    None,
                    plaintext_hash,
                ),
                BlobType::CompressedData {
                    encrypted_length,
                    plaintext_length,
                    plaintext_hash,
                } => (BlobKind::Data, *encrypted_length, Some(*plaintext_length), plaintext_hash),
                BlobType::CompressedTree {
                    encrypted_length,
                    plaintext_length,
                    plaintext_hash,
                } => (BlobKind::Tree, *encrypted_length, Some(*plaintext_length), plaintext_hash),
            };
            assert(views[index as int] == entries@[index as int]@);
            if encrypted_length > file.len() - at {
                proof {
                    lemma_failure_stays(*masterkey, file@, views, index + 1, entries@.len() as int);
                }
                return Err(Error::Truncated);
            }
            let sealed = slice_subrange(file, at, at + encrypted_length);
            let outcome = match open_blob(masterkey, sealed, plaintext_length) {
                Err(e) => Err(e),
                Ok(plain) => {
                    let blob = PackedBlob::seal(kind, plain);
                    if same_bytes(blob.digest().as_slice(), plaintext_hash.as_slice()) {
                        Ok(blob)
                    } else {
                        Err(Error::MismatchedHash)
                    }
                },
            };
            match outcome {
                Err(e) => {
                    proof {
                        lemma_failure_stays(
                            *masterkey,
                            file@,
                            views,
                            index + 1,
                            entries@.len() as int,
                        );
                    }
                    return Err(e);
                },
                Ok(blob) => {
                    let ghost before = blobs_of(blobs@);
                    let ghost added = (blob.kind_of(), blob.content());
                    blobs.push(blob);
                    assert(blobs_of(blobs@) =~= before.push(added));
                },
            }
            at = at + encrypted_length;
            index = index + 1;
        }
        Ok(blobs)
    }
}

} // verus!
