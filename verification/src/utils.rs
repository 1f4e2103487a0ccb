//! Small conversions applied to metadata fields as they are decoded.

use crate::codec::base64_decode;
use crate::codec::base64_decoded;
use crate::codec::hex_decode;
use crate::codec::hex_decoded;
use crate::codec::is_hex;
use crate::codec::parse_rfc3339;
use crate::codec::rfc3339_instant;
use crate::error::Error;
use crate::restore::Timestamp;
use vstd::prelude::*;
use vstd::utf8::encode_utf8;

verus! {

/// The views of a sequence of byte vectors.
pub open spec fn lists_of(vectors: Seq<Vec<u8>>) -> Seq<Seq<u8>> {
    Seq::new(vectors.len(), |i: int| vectors[i]@)
}

/// Whether every text of a list is hexadecimal.
pub open spec fn all_hex(texts: Seq<Seq<char>>) -> bool {
    forall|i: int| 0 <= i < texts.len() ==> is_hex(encode_utf8(#[trigger] texts[i]))
}

/// The bytes that each text of a list stands for.
pub open spec fn all_hex_decoded(texts: Seq<Seq<char>>) -> Seq<Seq<u8>> {
    Seq::new(texts.len(), |i: int| hex_decoded(encode_utf8(texts[i])))
}

/// Reads a hexadecimal text, of either case, as bytes.
pub fn from_hex(text: &str) -> (bytes: Result<Vec<u8>, Error>)
    ensures
        match bytes {
            Ok(b) => is_hex(encode_utf8(text@)) && b@ == hex_decoded(encode_utf8(text@)),
            Err(e) => !is_hex(encode_utf8(text@)) && e == Error::MalformedMetadata,
        },
{
    match hex_decode(text.as_bytes()) {
        Some(bytes) => Ok(bytes),
        None => Err(Error::MalformedMetadata),
    }
}

/// Reads each hexadecimal text of a list as bytes.
pub fn from_hex_vec(texts: &Vec<String>) -> (lists: Result<Vec<Vec<u8>>, Error>)
    ensures
        match lists {
            Ok(l) => all_hex(crate::codec::texts_of(texts@)) && lists_of(l@) == all_hex_decoded(
                crate::codec::texts_of(texts@),
            ),
            Err(e) => !all_hex(crate::codec::texts_of(texts@)) && e == Error::MalformedMetadata,
        },
{
    let ghost all = crate::codec::texts_of(texts@);
    let mut lists: Vec<Vec<u8>> = Vec::new();
    let mut index: usize = 0;
    while index < texts.len()
        invariant
            0 <= index <= texts@.len(),
            all == crate::codec::texts_of(texts@),
            lists@.len() == index,
            forall|j: int| 0 <= j < index ==> is_hex(encode_utf8(#[trigger] all[j])),
            forall|j: int| 0 <= j < index ==> (#[trigger] lists@[j])@ == hex_decoded(encode_utf8(all[j])),
        decreases texts@.len() - index,
    {
        match from_hex(texts[index].as_str()) {
            Ok(bytes) => {
                lists.push(bytes);
            },
            Err(e) => {
                assert(!is_hex(encode_utf8(all[index as int])));
                return Err(e);
            },
        }
        index = index + 1;
    }
    assert(lists_of(lists@) =~= all_hex_decoded(all));
    Ok(lists)
}

/// Reads a text in standard base64, with padding, as bytes.
pub fn from_b64(text: &str) -> (bytes: Result<Vec<u8>, Error>)
    ensures
        match bytes {
            Ok(b) => base64_decoded(encode_utf8(text@)) == Some(b@),
            Err(e) => base64_decoded(encode_utf8(text@)) is None && e == Error::MalformedMetadata,
        },
{
    match base64_decode(text.as_bytes()) {
        Some(bytes) => Ok(bytes),
        None => Err(Error::MalformedMetadata),
    }
}

/// Reads an RFC 3339 date and time as an instant.
pub fn from_datetime(text: &str) -> (time: Result<Timestamp, Error>)
    ensures
        match time {
            Ok(t) => rfc3339_instant(text@) == Some((t.secs, t.nanos)),
            Err(e) => rfc3339_instant(text@) is None && e == Error::MalformedMetadata,
        },
{
    match parse_rfc3339(text) {
        Some((secs, nanos)) => Ok(Timestamp { secs, nanos }),
        None => Err(Error::MalformedMetadata),
    }
}

/// Reads an integer flag as a boolean: zero is `false`, anything else is
/// `true`.
pub fn from_truthy(value: u64) -> (flag: bool)
    ensures
        flag == (value != 0),
{
    value != 0
}

} // verus!
