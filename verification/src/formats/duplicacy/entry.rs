//! File entries.
//!
//! An entry chunk is a run of MessagePack values with no framing around or
//! between the entries: each entry is its fields in a fixed order, and the
//! chunk ends where the bytes do.

use crate::codec::hex_decoded;
use crate::codec::is_hex;
use crate::codec::msgpack_int;
use crate::codec::msgpack_str;
use crate::codec::msgpack_str_len;
use crate::codec::read_msgpack_int;
use crate::codec::read_msgpack_str;
use crate::codec::read_msgpack_str_len;
use crate::error::Error;
use crate::utils::from_hex;
use super::config::Config;
use vstd::prelude::*;
use vstd::slice::slice_subrange;
use vstd::utf8::encode_utf8;

verus! {

/// The longest text that an entry may hold, in bytes.
pub const MAX_TEXT_LEN: usize = 5000;

#[derive(Debug)]
pub struct Entry {
    pub path: String,
    pub size: i64,
    pub time: i64,
    pub mode: i64,
    pub link: String,
    pub hash: Vec<u8>,
    pub uid: i32,
    pub gid: i32,
    pub start_chunk: i32,
    pub start_offset: i32,
    pub end_chunk: i32,
    pub end_offset: i32,
    /// Extended attributes, in the order in which they are stored.
    pub attributes: Vec<(String, Vec<u8>)>,
}

/// What an entry holds.
pub struct EntryView {
    pub path: Seq<char>,
    pub size: i64,
    pub time: i64,
    pub mode: i64,
    pub link: Seq<char>,
    pub hash: Seq<u8>,
    pub uid: i32,
    pub gid: i32,
    pub start_chunk: i32,
    pub start_offset: i32,
    pub end_chunk: i32,
    pub end_offset: i32,
    pub attributes: Seq<(Seq<char>, Seq<u8>)>,
}

/// A value read from the front of some bytes, and the bytes after it.
pub struct Taken<T> {
    pub value: T,
    pub rest: Seq<u8>,
}

/// The names and values of a list of attributes.
pub open spec fn attributes_of(attributes: Seq<(String, Vec<u8>)>) -> Seq<(Seq<char>, Seq<u8>)> {
    Seq::new(attributes.len(), |i: int| (attributes[i].0@, attributes[i].1@))
}

impl View for Entry {
    type V = EntryView;

    open spec fn view(&self) -> EntryView {
        EntryView {
            path: self.path@,
            size: self.size,
            time: self.time,
            mode: self.mode,
            link: self.link@,
            hash: self.hash@,
            uid: self.uid,
            gid: self.gid,
            start_chunk: self.start_chunk,
            start_offset: self.start_offset,
            end_chunk: self.end_chunk,
            end_offset: self.end_offset,
            attributes: attributes_of(self.attributes@),
        }
    }
}

/// What each entry of a list holds.
pub open spec fn entries_of(entries: Seq<Entry>) -> Seq<EntryView> {
    Seq::new(entries.len(), |i: int| entries[i]@)
}

/// The text at the front of `bytes`.
pub open spec fn text_at(bytes: Seq<u8>) -> Option<Taken<Seq<char>>> {
    match msgpack_str(bytes, MAX_TEXT_LEN) {
        Some((text, used)) => Some(Taken { value: text, rest: bytes.skip(used) }),
        None => None,
    }
}

/// The integer at the front of `bytes`.
pub open spec fn int_at(bytes: Seq<u8>) -> Option<Taken<i64>> {
    match msgpack_int(bytes) {
        Some((value, used)) => Some(Taken { value, rest: bytes.skip(used) }),
        None => None,
    }
}

/// The integer at the front of `bytes`, which must fit 32 bits.
pub open spec fn small_int_at(bytes: Seq<u8>) -> Option<Taken<i32>> {
    match int_at(bytes) {
        Some(taken) => if i32::MIN <= taken.value <= i32::MAX {
            Some(Taken { value: taken.value as i32, rest: taken.rest })
        } else {
            None
        },
        None => None,
    }
}

/// The hexadecimal text at the front of `bytes`, as the bytes it stands for.
pub open spec fn hex_at(bytes: Seq<u8>) -> Option<Taken<Seq<u8>>> {
    match text_at(bytes) {
        Some(taken) => if is_hex(encode_utf8(taken.value)) {
            Some(Taken { value: hex_decoded(encode_utf8(taken.value)), rest: taken.rest })
        } else {
            None
        },
        None => None,
    }
}

/// The string at the front of `bytes`, taken as raw bytes: a string header
/// and then as many bytes as it announces, whatever they hold.
pub open spec fn raw_at(bytes: Seq<u8>) -> Option<Taken<Seq<u8>>> {
    match msgpack_str_len(bytes) {
        Some((len, used)) => if bytes.len() - used >= len {
            Some(Taken { value: bytes.subrange(used, used + len), rest: bytes.skip(used + len) })
        } else {
            None
        },
        None => None,
    }
}

/// `count` attributes at the front of `bytes`, each a name and a raw value.
pub open spec fn attributes_at(bytes: Seq<u8>, count: int) -> Option<
    Taken<Seq<(Seq<char>, Seq<u8>)>>,
>
    decreases count,
{
    if count <= 0 {
        Some(Taken { value: Seq::empty(), rest: bytes })
    } else {
        match text_at(bytes) {
            None => None,
            Some(name) => match raw_at(name.rest) {
                None => None,
                Some(value) => match attributes_at(value.rest, count - 1) {
                    None => None,
                    Some(more) => Some(
                        Taken {
                            value: seq![(name.value, value.value)] + more.value,
                            rest: more.rest,
                        },
                    ),
                },
            },
        }
    }
}

/// The entry at the front of `bytes`: path, size, time, mode, link, hash,
/// the four numbers of the range, uid, gid, the number of attributes and the
/// attributes.
pub open spec fn entry_at(bytes: Seq<u8>) -> Option<Taken<EntryView>> {
    match text_at(bytes) {
        None => None,
        Some(path) => match int_at(path.rest) {
            None => None,
            Some(size) => match int_at(size.rest) {
                None => None,
                Some(time) => match int_at(time.rest) {
                    None => None,
                    Some(mode) => match text_at(mode.rest) {
                        None => None,
                        Some(link) => match hex_at(link.rest) {
                            None => None,
                            Some(hash) => entry_tail_at(
                                hash.rest,
                                path.value,
                                size.value,
                                time.value,
                                mode.value,
                                link.value,
                                hash.value,
                            ),
                        },
                    },
                },
            },
        }
    }
}

/// The rest of an entry, from the range on, put together with the fields
/// that came before.
pub open spec fn entry_tail_at(
    bytes: Seq<u8>,
    path: Seq<char>,
    size: i64,
    time: i64,
    mode: i64,
    link: Seq<char>,
    hash: Seq<u8>,
) -> Option<Taken<EntryView>> {
    match small_int_at(bytes) {
        None => None,
        Some(start_chunk) => match small_int_at(start_chunk.rest) {
            None => None,
            Some(start_offset) => match small_int_at(start_offset.rest) {
                None => None,
                Some(end_chunk) => match small_int_at(end_chunk.rest) {
                    None => None,
                    Some(end_offset) => match small_int_at(end_offset.rest) {
                        None => None,
                        Some(uid) => match small_int_at(uid.rest) {
                            None => None,
                            Some(gid) => match small_int_at(gid.rest) {
                                None => None,
                                Some(count) => match attributes_at(
                                    count.rest,
                                    count.value as int,
                                ) {
                                    None => None,
                                    Some(attributes) => Some(
                                        Taken {
                                            value: EntryView {
                                                path,
                                                size,
                                                time,
                                                mode,
                                                link,
                                                hash,
                                                uid: uid.value,
                                                gid: gid.value,
                                                start_chunk: start_chunk.value,
                                                start_offset: start_offset.value,
                                                end_chunk: end_chunk.value,
                                                end_offset: end_offset.value,
                                                attributes: attributes.value,
                                            },
                                            rest: attributes.rest,
                                        },
                                    ),
                                },
                            },
                        },
                    },
                },
            },
        },
    }
}

/// The entries that `bytes` holds, one after the other up to the last byte.
pub open spec fn entries_in(bytes: Seq<u8>) -> Option<Seq<EntryView>>
    decreases bytes.len(),
{
    if bytes.len() == 0 {
        Some(Seq::empty())
    } else {
        match entry_at(bytes) {
            None => None,
            Some(first) => if first.rest.len() >= bytes.len() {
                None
            } else {
                match entries_in(first.rest) {
                    None => None,
                    Some(more) => Some(seq![first.value] + more),
                }
            },
        }
    }
}

fn take_text<'a>(bytes: &'a [u8]) -> (taken: Option<(String, &'a [u8])>)
    ensures
        match taken {
            Some((text, rest)) => text_at(bytes@) == Some(Taken { value: text@, rest: rest@ })
                && rest@.len() < bytes@.len(),
            None => text_at(bytes@) is None,
        },
{
    read_msgpack_str(bytes, MAX_TEXT_LEN)
}

fn take_int<'a>(bytes: &'a [u8]) -> (taken: Option<(i64, &'a [u8])>)
    ensures
        match taken {
            Some((value, rest)) => int_at(bytes@) == Some(Taken { value, rest: rest@ })
                && rest@.len() < bytes@.len(),
            None => int_at(bytes@) is None,
        },
{
    read_msgpack_int(bytes)
}

fn take_small_int<'a>(bytes: &'a [u8]) -> (taken: Option<(i32, &'a [u8])>)
    ensures
        match taken {
            Some((value, rest)) => small_int_at(bytes@) == Some(Taken { value, rest: rest@ })
                && rest@.len() < bytes@.len(),
            None => small_int_at(bytes@) is None,
        },
{
    match take_int(bytes) {
        Some((value, rest)) => {
            if value < -0x8000_0000 || value > 0x7fff_ffff {
                None
            } else {
                Some((value as i32, rest))
            }
        },
        None => None,
    }
}

fn take_hex<'a>(bytes: &'a [u8]) -> (taken: Option<(Vec<u8>, &'a [u8])>)
    ensures
        match taken {
            Some((value, rest)) => hex_at(bytes@) == Some(Taken { value: value@, rest: rest@ })
                && rest@.len() < bytes@.len(),
            None => hex_at(bytes@) is None,
        },
{
    match take_text(bytes) {
        Some((text, rest)) => match from_hex(text.as_str()) {
            Ok(value) => Some((value, rest)),
            Err(_) => None,
        },
        None => None,
    }
}

fn take_raw<'a>(bytes: &'a [u8]) -> (taken: Option<(Vec<u8>, &'a [u8])>)
    ensures
        match taken {
            Some((value, rest)) => raw_at(bytes@) == Some(Taken { value: value@, rest: rest@ })
                && rest@.len() < bytes@.len(),
            None => raw_at(bytes@) is None,
        },
{
    match read_msgpack_str_len(bytes) {
        Some((len, body)) => {
            let len = len as usize;
            if body.len() < len {
                return None;
            }
            let value = vstd::slice::slice_to_vec(slice_subrange(body, 0, len));
            let rest = slice_subrange(body, len, body.len());
            proof {
                match msgpack_str_len(bytes@) {
                    Some((_, used)) => {
                        assert(value@ =~= bytes@.subrange(used, used + len));
                        assert(rest@ =~= bytes@.skip(used + len));
                    },
                    None => {},
                }
            }
            Some((value, rest))
        },
        None => None,
    }
}

fn take_attributes<'a>(bytes: &'a [u8], count: i32) -> (taken: Option<
    (Vec<(String, Vec<u8>)>, &'a [u8]),
>)
    ensures
        match taken {
            Some((attributes, rest)) => attributes_at(bytes@, count as int) == Some(
                Taken { value: attributes_of(attributes@), rest: rest@ },
            ) && rest@.len() <= bytes@.len(),
            None => attributes_at(bytes@, count as int) is None,
        },
{
    let mut attributes: Vec<(String, Vec<u8>)> = Vec::new();
    let mut rest: &[u8] = bytes;
    let mut left: i32 = count;
    assert(attributes_of(attributes@) =~= Seq::empty());
    assert(match attributes_at(bytes@, count as int) {
        Some(more) => Seq::<(Seq<char>, Seq<u8>)>::empty() + more.value =~= more.value,
        None => true,
    });
    while left > 0
        invariant
            rest@.len() <= bytes@.len(),
            attributes_at(bytes@, count as int) == match attributes_at(rest@, left as int) {
                Some(more) => Some(
                    Taken { value: attributes_of(attributes@) + more.value, rest: more.rest },
                ),
                None => None,
            },
        decreases left,
    {
        let (name, after_name) = match take_text(rest) {
            Some(taken) => taken,
            None => {
                return None;
            },
        };
        let (value, after_value) = match take_raw(after_name) {
            Some(taken) => taken,
            None => {
                return None;
            },
        };
        let ghost before = attributes_of(attributes@);
        attributes.push((name, value));
        proof {
            assert(attributes_of(attributes@) =~= before + seq![(name@, value@)]);
            match attributes_at(after_value@, left - 1) {
                Some(more) => {
                    assert(before + (seq![(name@, value@)] + more.value) =~= (before + seq![
                        (name@, value@),
                    ]) + more.value);
                },
                None => {},
            }
        }
        rest = after_value;
        left = left - 1;
    }
    assert(attributes_of(attributes@) + Seq::<(Seq<char>, Seq<u8>)>::empty() =~= attributes_of(
        attributes@,
    ));
    Some((attributes, rest))
}

fn take_entry<'a>(bytes: &'a [u8]) -> (taken: Option<(Entry, &'a [u8])>)
    ensures
        match taken {
            Some((entry, rest)) => entry_at(bytes@) == Some(Taken { value: entry@, rest: rest@ })
                && rest@.len() < bytes@.len(),
            None => entry_at(bytes@) is None,
        },
{
    let (path, rest) = take_text(bytes)?;
    let (size, rest) = take_int(rest)?;
    let (time, rest) = take_int(rest)?;
    let (mode, rest) = take_int(rest)?;
    let (link, rest) = take_text(rest)?;
    let (hash, rest) = take_hex(rest)?;
    let (start_chunk, rest) = take_small_int(rest)?;
    let (start_offset, rest) = take_small_int(rest)?;
    let (end_chunk, rest) = take_small_int(rest)?;
    let (end_offset, rest) = take_small_int(rest)?;
    let (uid, rest) = take_small_int(rest)?;
    let (gid, rest) = take_small_int(rest)?;
    let (count, rest) = take_small_int(rest)?;
    let (attributes, rest) = take_attributes(rest, count)?;
    Some(
        (
            Entry {
                path,
                size,
                time,
                mode,
                link,
                hash,
                uid,
                gid,
                start_chunk,
                start_offset,
                end_chunk,
                end_offset,
                attributes,
            },
            rest,
        ),
    )
}

impl Entry {
    /// Reads the entries of a decoded entry chunk. Anything that is not a
    /// whole number of entries is malformed.
    pub fn parse(bytes: &[u8]) -> (entries: Result<Vec<Entry>, Error>)
        ensures
            match entries {
                Ok(list) => entries_in(bytes@) == Some(entries_of(list@)),
                Err(e) => entries_in(bytes@) is None && e == Error::MalformedMetadata,
            },
    {
        let mut entries: Vec<Entry> = Vec::new();
        let mut rest: &[u8] = bytes;
        assert(entries_of(entries@) =~= Seq::empty());
        while rest.len() > 0
            invariant
                entries_in(bytes@) == match entries_in(rest@) {
                    Some(more) => Some(entries_of(entries@) + more),
                    None => None,
                },
            decreases rest@.len(),
        {
            match take_entry(rest) {
                None => {
                    return Err(Error::MalformedMetadata);
                },
                Some((entry, after)) => {
                    let ghost before = entries_of(entries@);
                    let ghost view = entry@;
                    entries.push(entry);
                    proof {
                        assert(entries_of(entries@) =~= before + seq![view]);
                        match entries_in(after@) {
                            Some(more) => {
                                assert(before + (seq![view] + more) =~= (before + seq![view])
                                    + more);
                            },
                            None => {},
                        }
                    }
                    rest = after;
                },
            }
        }
        assert(entries_of(entries@) + Seq::<EntryView>::empty() =~= entries_of(entries@));
        Ok(entries)
    }

    /// The entries of the entry chunk stored under `hash`.
    pub open spec fn read(config: Config, file: Seq<u8>, hash: Seq<u8>) -> Result<
        Seq<EntryView>,
        Error,
    > {
        match config.content(file, hash) {
            Err(e) => Err(e),
            Ok(content) => match entries_in(content) {
                Some(entries) => Ok(entries),
                None => Err(Error::MalformedMetadata),
            },
        }
    }

    /// Decodes the entries of an entry chunk from the contents of its file
    /// and the hash it is stored under.
    pub fn from_file(config: &Config, file: &[u8], hash: &[u8]) -> (entries: Result<
        Vec<Entry>,
        Error,
    >)
        ensures
            match entries {
                Ok(list) => Self::read(*config, file@, hash@) == Ok::<Seq<EntryView>, Error>(
                    entries_of(list@),
                ),
                Err(e) => Self::read(*config, file@, hash@) == Err::<Seq<EntryView>, Error>(e),
            },
    {
        let content = config.decode_object(file, hash)?;
        Self::parse(content.as_slice())
    }
}

} // verus!
