//! Turning a span over an ordered list of chunks into the bytes of a file.

use crate::error::Error;
use vstd::prelude::*;

verus! {

/// Where a file's bytes lie in an ordered list of chunks: from
/// `start_offset` in chunk `start_chunk` up to, but not including,
/// `end_offset` in chunk `end_chunk`.
#[derive(Debug, Clone, Copy, PartialEq, Eq, Structural)]
pub struct ChunkRange {
    pub start_chunk: usize,
    pub start_offset: usize,
    pub end_chunk: usize,
    pub end_offset: usize,
}

/// Anything that holds the decoded bytes of one chunk.
pub trait Payload {
    /// The decoded bytes.
    spec fn payload(&self) -> Seq<u8>;

    fn bytes(&self) -> (bytes: &Vec<u8>)
        ensures
            bytes@ == self.payload(),
    ;
}

/// The decoded bytes of each chunk of a list.
pub open spec fn payloads<C: Payload>(chunks: Seq<C>) -> Seq<Seq<u8>> {
    Seq::new(chunks.len(), |i: int| chunks[i].payload())
}

/// The total length of the chunks numbered `from` up to, but not including,
/// `to`.
pub open spec fn total_len(chunks: Seq<Seq<u8>>, from: int, to: int) -> int
    decreases to - from,
{
    if to <= from {
        0
    } else {
        total_len(chunks, from, to - 1) + chunks[to - 1].len()
    }
}

/// The concatenation of the chunks numbered `from` up to, but not
/// including, `to`.
pub open spec fn joined(chunks: Seq<Seq<u8>>, from: int, to: int) -> Seq<u8>
    decreases to - from,
{
    if to <= from {
        Seq::empty()
    } else {
        joined(chunks, from, to - 1) + chunks[to - 1]
    }
}

impl ChunkRange {
    /// Where this range's bytes begin in chunk number `index`.
    pub open spec fn lower(self, index: int) -> int {
        if index == self.start_chunk {
            self.start_offset as int
        } else {
            0
        }
    }

    /// Where this range's bytes end in chunk number `index`, which is `len`
    /// bytes long.
    pub open spec fn upper(self, index: int, len: int) -> int {
        if index == self.end_chunk {
            self.end_offset as int
        } else {
            len
        }
    }

    /// Whether the range names no chunk at all.
    pub open spec fn is_empty(self) -> bool {
        self.start_chunk > self.end_chunk
    }

    /// Whether every chunk and offset that the range names exists in
    /// `chunks`. A range that names no chunk fits any list.
    pub open spec fn fits(self, chunks: Seq<Seq<u8>>) -> bool {
        self.is_empty() || {
            &&& self.end_chunk < chunks.len()
            &&& if self.start_chunk == self.end_chunk {
                self.start_offset <= self.end_offset <= chunks[self.start_chunk as int].len()
            } else {
                &&& self.start_offset <= chunks[self.start_chunk as int].len()
                &&& self.end_offset <= chunks[self.end_chunk as int].len()
            }
        }
    }

    /// The bytes that the range takes from chunk number `index`.
    pub open spec fn piece(self, chunks: Seq<Seq<u8>>, index: int) -> Seq<u8> {
        chunks[index].subrange(self.lower(index), self.upper(index, chunks[index].len() as int))
    }

    /// The bytes that the range takes from the chunks before number `upto`.
    pub open spec fn pieces(self, chunks: Seq<Seq<u8>>, upto: int) -> Seq<u8>
        decreases upto - self.start_chunk,
    {
        if upto <= self.start_chunk {
            Seq::empty()
        } else {
            self.pieces(chunks, upto - 1) + self.piece(chunks, upto - 1)
        }
    }

    /// The bytes of the file that the range describes.
    pub open spec fn assembled(self, chunks: Seq<Seq<u8>>) -> Seq<u8> {
        self.pieces(chunks, self.end_chunk + 1)
    }

    /// The number of bytes that a fitting range describes.
    pub open spec fn byte_count(self, chunks: Seq<Seq<u8>>) -> int {
        if self.is_empty() {
            0
        } else if self.start_chunk == self.end_chunk {
            self.end_offset - self.start_offset
        } else {
            (chunks[self.start_chunk as int].len() - self.start_offset) + total_len(
                chunks,
                self.start_chunk + 1,
                self.end_chunk as int,
            ) + self.end_offset
        }
    }

    /// Tells whether the range fits a list of chunks.
    pub fn fits_in<C: Payload>(&self, chunks: &Vec<C>) -> (fits: bool)
        ensures
            fits == self.fits(payloads(chunks@)),
    {
        if self.start_chunk > self.end_chunk {
            return true;
        }
        if self.end_chunk >= chunks.len() {
            return false;
        }
        let first_len = chunks[self.start_chunk].bytes().len();
        let last_len = chunks[self.end_chunk].bytes().len();
        if self.start_chunk == self.end_chunk {
            self.start_offset <= self.end_offset && self.end_offset <= first_len
        } else {
            self.start_offset <= first_len && self.end_offset <= last_len
        }
    }

    /// Collects the bytes of the file that the range describes: for each
    /// chunk from `start_chunk` to `end_chunk`, the part from `start_offset`
    /// on in the first, up to `end_offset` in the last, and all of every
    /// chunk between. A range that does not fit the chunks is refused.
    pub fn assemble<C: Payload>(&self, chunks: &Vec<C>) -> (file: Result<Vec<u8>, Error>)
        ensures
            self.fits(payloads(chunks@)) ==> file is Ok && file->Ok_0@ == self.assembled(
                payloads(chunks@),
            ),
            !self.fits(payloads(chunks@)) ==> file == Err::<Vec<u8>, Error>(
                Error::MalformedMetadata,
            ),
    {
        if !self.fits_in(chunks) {
            return Err(Error::MalformedMetadata);
        }
        let mut file: Vec<u8> = Vec::new();
        if self.start_chunk > self.end_chunk {
            return Ok(file);
        }
        let ghost all = payloads(chunks@);
        let count: usize = chunks.len();
        let mut index: usize = self.start_chunk;
        while index <= self.end_chunk
            invariant
                all == payloads(chunks@),
                self.fits(all),
                self.start_chunk <= self.end_chunk < count,
                count == chunks@.len(),
                self.start_chunk <= index <= self.end_chunk + 1,
                file@ == self.pieces(all, index as int),
            decreases self.end_chunk + 1 - index,
        {
            let chunk = chunks[index].bytes();
            let lower: usize = if index == self.start_chunk {
                self.start_offset
            } else {
                0
            };
            let upper: usize = if index == self.end_chunk {
                self.end_offset
            } else {
                chunk.len()
            };
            let part = vstd::slice::slice_subrange(chunk.as_slice(), lower, upper);
            file.extend_from_slice(part);
            index = index + 1;
        }
        Ok(file)
    }
}

/// Puts the bytes of a list of chunks one after the other.
pub fn join_all<C: Payload>(chunks: &Vec<C>) -> (bytes: Vec<u8>)
    ensures
        bytes@ == joined(payloads(chunks@), 0, chunks@.len() as int),
{
    let ghost all = payloads(chunks@);
    let mut bytes: Vec<u8> = Vec::new();
    let mut index: usize = 0;
    while index < chunks.len()
        invariant
            all == payloads(chunks@),
            0 <= index <= chunks@.len(),
            bytes@ == joined(all, 0, index as int),
        decreases chunks@.len() - index,
    {
        bytes.extend_from_slice(chunks[index].bytes().as_slice());
        index = index + 1;
    }
    bytes
}

/// The bytes that a fitting range takes from the chunks strictly between its
/// first and its last are those chunks whole.
pub proof fn lemma_inner_pieces(range: ChunkRange, chunks: Seq<Seq<u8>>, upto: int)
    requires
        range.start_chunk < upto <= range.end_chunk,
        range.end_chunk < chunks.len(),
        range.start_offset <= chunks[range.start_chunk as int].len(),
    ensures
        range.pieces(chunks, upto) == chunks[range.start_chunk as int].skip(
            range.start_offset as int,
        ) + joined(chunks, range.start_chunk + 1, upto),
        range.pieces(chunks, upto).len() == chunks[range.start_chunk as int].len()
            - range.start_offset + total_len(chunks, range.start_chunk + 1, upto),
    decreases upto - range.start_chunk,
{
    let first = chunks[range.start_chunk as int];
    let head = first.skip(range.start_offset as int);
    if upto == range.start_chunk + 1 {
        assert(range.pieces(chunks, upto - 1) =~= Seq::<u8>::empty());
        assert(range.piece(chunks, upto - 1) =~= head);
        assert(joined(chunks, range.start_chunk + 1, upto) =~= Seq::<u8>::empty());
        assert(range.pieces(chunks, upto) =~= head + joined(chunks, range.start_chunk + 1, upto));
    } else {
        lemma_inner_pieces(range, chunks, upto - 1);
        assert(range.piece(chunks, upto - 1) =~= chunks[upto - 1]);
        assert(range.pieces(chunks, upto) =~= head + joined(chunks, range.start_chunk + 1, upto));
    }
}

/// A file is exactly as long as its range says: the distance between the
/// two offsets where they lie in one chunk, and otherwise the rest of the
/// first chunk, all of the chunks between, and the last chunk up to the end
/// offset.
pub proof fn lemma_assembled_len(range: ChunkRange, chunks: Seq<Seq<u8>>)
    requires
        range.fits(chunks),
    ensures
        range.assembled(chunks).len() == range.byte_count(chunks),
        range.start_chunk == range.end_chunk ==> range.assembled(chunks).len() == range.end_offset
            - range.start_offset,
{
    if range.is_empty() {
        assert(range.assembled(chunks) =~= Seq::<u8>::empty());
    } else if range.start_chunk == range.end_chunk {
        assert(range.pieces(chunks, range.start_chunk as int) =~= Seq::<u8>::empty());
        assert(range.assembled(chunks) =~= range.piece(chunks, range.start_chunk as int));
    } else {
        lemma_inner_pieces(range, chunks, range.end_chunk as int);
        assert(range.assembled(chunks) =~= range.pieces(chunks, range.end_chunk as int)
            + range.piece(chunks, range.end_chunk as int));
    }
}

/// A range from the start of one chunk to the end of another describes the
/// concatenation of those chunks: cutting a file into consecutive chunks and
/// assembling them gives the file back.
pub proof fn lemma_whole_chunks(range: ChunkRange, chunks: Seq<Seq<u8>>)
    requires
        range.start_chunk <= range.end_chunk < chunks.len(),
        range.start_offset == 0,
        range.end_offset == chunks[range.end_chunk as int].len(),
    ensures
        range.fits(chunks),
        range.assembled(chunks) == joined(chunks, range.start_chunk as int, range.end_chunk + 1),
{
    let first = chunks[range.start_chunk as int];
    let last = chunks[range.end_chunk as int];
    if range.start_chunk == range.end_chunk {
        assert(range.pieces(chunks, range.start_chunk as int) =~= Seq::<u8>::empty());
        assert(range.piece(chunks, range.start_chunk as int) =~= first);
        assert(joined(chunks, range.start_chunk as int, range.start_chunk as int) =~= Seq::<
            u8,
        >::empty());
        assert(range.assembled(chunks) =~= joined(
            chunks,
            range.start_chunk as int,
            range.end_chunk + 1,
        ));
    } else {
        lemma_inner_pieces(range, chunks, range.end_chunk as int);
        lemma_joined_split(chunks, range.start_chunk as int, range.end_chunk as int);
        assert(first.skip(0) =~= first);
        assert(range.piece(chunks, range.end_chunk as int) =~= last);
        assert(range.assembled(chunks) =~= range.pieces(chunks, range.end_chunk as int) + last);
    }
}

/// Joining from `from` is the chunk at `from` followed by the join from the
/// next one.
pub proof fn lemma_joined_split(chunks: Seq<Seq<u8>>, from: int, to: int)
    requires
        from < to,
    ensures
        joined(chunks, from, to) == chunks[from] + joined(chunks, from + 1, to),
    decreases to - from,
{
    if to == from + 1 {
        assert(joined(chunks, from, from) =~= Seq::<u8>::empty());
        assert(joined(chunks, from + 1, to) =~= Seq::<u8>::empty());
        assert(joined(chunks, from, to) =~= chunks[from] + joined(chunks, from + 1, to));
    } else {
        lemma_joined_split(chunks, from, to - 1);
        assert(joined(chunks, from, to) =~= chunks[from] + joined(chunks, from + 1, to));
    }
}

} // verus!
