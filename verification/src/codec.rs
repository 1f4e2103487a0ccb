//! Byte-level and text-level codecs: hexadecimal, base64, little-endian
//! integers, MessagePack scalars, timestamps and JSON string lists.

use base64::Engine;
use byteorder::ByteOrder;
use chrono::TimeZone;
use vstd::prelude::*;

verus! {

/// The value of an ASCII hexadecimal digit, in either case.
pub open spec fn hex_digit_value(c: u8) -> Option<u8> {
    if 0x30 <= c <= 0x39 {
        Some((c - 0x30) as u8)
    } else if 0x61 <= c <= 0x66 {
        Some((c - 0x61 + 10) as u8)
    } else if 0x41 <= c <= 0x46 {
        Some((c - 0x41 + 10) as u8)
    } else {
        None
    }
}

/// Whether `text` is an even number of hexadecimal digits.
pub open spec fn is_hex(text: Seq<u8>) -> bool {
    &&& text.len() % 2 == 0
    &&& forall|i: int| 0 <= i < text.len() ==> hex_digit_value(#[trigger] text[i]) is Some
}

/// The bytes that a hexadecimal text stands for, two digits to a byte.
pub open spec fn hex_decoded(text: Seq<u8>) -> Seq<u8> {
    Seq::new(
        text.len() / 2,
        |i: int|
            (hex_digit_value(text[2 * i])->0 * 16 + hex_digit_value(text[2 * i + 1])->0) as u8,
    )
}

/// The sixteen lower-case hexadecimal digits.
pub open spec fn hex_digits() -> Seq<char> {
    seq!['0', '1', '2', '3', '4', '5', '6', '7', '8', '9', 'a', 'b', 'c', 'd', 'e', 'f']
}

/// The lower-case hexadecimal text of `data`, two digits to a byte.
pub open spec fn hex_encoded(data: Seq<u8>) -> Seq<char> {
    Seq::new(
        2 * data.len(),
        |i: int|
            if i % 2 == 0 {
                hex_digits()[data[i / 2] as int / 16]
            } else {
                hex_digits()[data[i / 2] as int % 16]
            },
    )
}

/// The number that four bytes hold in little-endian order.
pub open spec fn le_u32(bytes: Seq<u8>) -> int {
    bytes[0] + bytes[1] * 0x100 + bytes[2] * 0x1_0000 + bytes[3] * 0x100_0000
}

/// The views of a sequence of strings.
pub open spec fn texts_of(strings: Seq<String>) -> Seq<Seq<char>> {
    Seq::new(strings.len(), |i: int| strings[i]@)
}

/// Whether `data` begins with `prefix`.
pub open spec fn has_prefix(data: Seq<u8>, prefix: Seq<u8>) -> bool {
    data.len() >= prefix.len() && data.subrange(0, prefix.len() as int) == prefix
}

/// Tells whether `data` begins with `prefix`.
pub fn starts_with(data: &[u8], prefix: &[u8]) -> (yes: bool)
    ensures
        yes == has_prefix(data@, prefix@),
{
    if data.len() < prefix.len() {
        return false;
    }
    let mut index: usize = 0;
    while index < prefix.len()
        invariant
            0 <= index <= prefix@.len() <= data@.len(),
            forall|j: int| 0 <= j < index ==> data@[j] == prefix@[j],
        decreases prefix@.len() - index,
    {
        if data[index] != prefix[index] {
            assert(data@.subrange(0, prefix@.len() as int)[index as int] != prefix@[index as int]);
            return false;
        }
        index = index + 1;
    }
    assert(data@.subrange(0, prefix@.len() as int) =~= prefix@);
    true
}

/// Tells whether two byte strings are the same.
pub fn same_bytes(a: &[u8], b: &[u8]) -> (same: bool)
    ensures
        same == (a@ == b@),
{
    if a.len() != b.len() {
        return false;
    }
    let same = starts_with(a, b);
    assert(a@.subrange(0, a@.len() as int) =~= a@);
    same
}

/// What standard base64 with padding decodes `text` to, or `None` where the
/// text is not valid base64.
pub uninterp spec fn base64_decoded(text: Seq<u8>) -> Option<Seq<u8>>;

/// The MessagePack integer that `bytes` begins with, as far as it fits an
/// `i64`, and the number of bytes that encode it.
pub uninterp spec fn msgpack_int(bytes: Seq<u8>) -> Option<(i64, int)>;

/// The length that the MessagePack string header at the start of `bytes`
/// announces, and the number of bytes of that header. A header is one of
/// four forms: a byte from `0xa0` to `0xbf`, which holds the length in its
/// low five bits; or `0xd9`, `0xda` or `0xdb`, followed by the length in
/// one, two or four bytes, the most significant first.
pub open spec fn msgpack_str_len(bytes: Seq<u8>) -> Option<(u32, int)> {
    if bytes.len() == 0 {
        None
    } else if 0xa0 <= bytes[0] <= 0xbf {
        Some(((bytes[0] - 0xa0) as u32, 1))
    } else if bytes[0] == 0xd9 && bytes.len() >= 2 {
        Some((bytes[1] as u32, 2))
    } else if bytes[0] == 0xda && bytes.len() >= 3 {
        Some(((bytes[1] * 0x100 + bytes[2]) as u32, 3))
    } else if bytes[0] == 0xdb && bytes.len() >= 5 {
        Some(
            (
                (bytes[1] * 0x100_0000 + bytes[2] * 0x1_0000 + bytes[3] * 0x100 + bytes[4]) as u32,
                5,
            ),
        )
    } else {
        None
    }
}

/// The UTF-8 MessagePack string that `bytes` begins with, as far as it is no
/// longer than `limit` bytes, and the number of bytes that encode it.
pub uninterp spec fn msgpack_str(bytes: Seq<u8>, limit: usize) -> Option<(Seq<char>, int)>;

/// The instant that an RFC 3339 text names: seconds since the Unix epoch
/// and the nanoseconds within that second.
pub uninterp spec fn rfc3339_instant(text: Seq<char>) -> Option<(i64, u32)>;

/// The UTC instant that `text` names when read by a `strftime`-style
/// `format`: seconds since the Unix epoch and the nanoseconds within that
/// second.
pub uninterp spec fn utc_instant(text: Seq<char>, format: Seq<char>) -> Option<(i64, u32)>;

/// The list of strings that a JSON document holds, or `None` where the
/// document is anything else.
pub uninterp spec fn json_strings(document: Seq<u8>) -> Option<Seq<Seq<char>>>;

/// Calls `hex::decode`. Claimed, from its source: it succeeds exactly on an
/// even number of hexadecimal digits of either case, and each byte is the
/// first digit of its pair times sixteen plus the second.
#[verifier::external_body]
pub(crate) fn hex_decode(text: &[u8]) -> (bytes: Option<Vec<u8>>)
    ensures
        bytes is Some <==> is_hex(text@),
        bytes is Some ==> bytes->0@ == hex_decoded(text@),
{
    hex::decode(text).ok()
}

/// Calls `hex::encode`. Claimed, from its source: each byte becomes two
/// lower-case digits, the high half first.
#[verifier::external_body]
pub(crate) fn hex_encode(data: &[u8]) -> (text: String)
    ensures
        text@ == hex_encoded(data@),
{
    hex::encode(data)
}

/// Calls `base64::engine::general_purpose::STANDARD.decode`. Claimed: the
/// outcome depends on the input text alone.
#[verifier::external_body]
pub(crate) fn base64_decode(text: &[u8]) -> (bytes: Option<Vec<u8>>)
    ensures
        crate::crypto::bytes_of(bytes) == base64_decoded(text@),
{
    base64::engine::general_purpose::STANDARD.decode(text).ok()
}

/// Calls `byteorder::LittleEndian::read_u32`, which reads the first four
/// bytes and aborts on fewer. Claimed: the little-endian value of those
/// bytes.
#[verifier::external_body]
pub(crate) fn read_le_u32(bytes: &[u8]) -> (n: u32)
    requires
        bytes@.len() >= 4,
    ensures
        n == le_u32(bytes@),
{
    byteorder::LittleEndian::read_u32(bytes)
}

/// Calls `rmp::decode::read_int` for an `i64` on a reader over `bytes`.
/// Claimed: the outcome depends on the bytes alone, and a successful read
/// consumes at least the marker byte and leaves the rest of the input.
#[verifier::external_body]
pub(crate) fn read_msgpack_int<'a>(bytes: &'a [u8]) -> (read: Option<(i64, &'a [u8])>)
    ensures
        match read {
            Some((value, rest)) => match msgpack_int(bytes@) {
                Some((named, used)) => {
                    &&& value == named
                    &&& 1 <= used <= bytes@.len()
                    &&& rest@ == bytes@.skip(used)
                },
                None => false,
            },
            None => msgpack_int(bytes@) is None,
        },
{
    let mut reader = bytes;
    let value: i64 = rmp::decode::read_int(&mut reader).ok()?;
    Some((value, reader))
}

/// Calls `rmp::decode::read_str_len` on a reader over `bytes`. Claimed,
/// from its source: it reads one of the four string headers and gives the
/// length that the header announces; what follows the header is left of the
/// input.
#[verifier::external_body]
pub(crate) fn read_msgpack_str_len<'a>(bytes: &'a [u8]) -> (read: Option<(u32, &'a [u8])>)
    ensures
        match read {
            Some((value, rest)) => match msgpack_str_len(bytes@) {
                Some((named, used)) => {
                    &&& value == named
                    &&& rest@ == bytes@.skip(used)
                },
                None => false,
            },
            None => msgpack_str_len(bytes@) is None,
        },
{
    let mut reader = bytes;
    let len = rmp::decode::read_str_len(&mut reader).ok()?;
    Some((len, reader))
}

/// Calls `rmp::decode::read_str` on a reader over `bytes`, with a scratch
/// buffer of `limit` bytes. Claimed: the outcome depends on the bytes and
/// the limit alone, and a successful read consumes at least the marker byte
/// and leaves the rest of the input.
#[verifier::external_body]
pub(crate) fn read_msgpack_str<'a>(bytes: &'a [u8], limit: usize) -> (read: Option<
    (String, &'a [u8]),
>)
    requires
        limit <= isize::MAX,
    ensures
        match read {
            Some((value, rest)) => match msgpack_str(bytes@, limit) {
                Some((named, used)) => {
                    &&& value@ == named
                    &&& 1 <= used <= bytes@.len()
                    &&& rest@ == bytes@.skip(used)
                },
                None => false,
            },
            None => msgpack_str(bytes@, limit) is None,
        },
{
    let mut reader = bytes;
    let mut scratch = vec![0u8; limit];
    let text = rmp::decode::read_str(&mut reader, &mut scratch).ok()?.to_string();
    Some((text, reader))
}

/// Calls `chrono::DateTime::parse_from_rfc3339`, then `timestamp` and
/// `timestamp_subsec_nanos` on what it returns. Claimed: the outcome depends
/// on the text alone.
#[verifier::external_body]
pub(crate) fn parse_rfc3339(text: &str) -> (instant: Option<(i64, u32)>)
    ensures
        instant == rfc3339_instant(text@),
{
    let time = chrono::DateTime::parse_from_rfc3339(text).ok()?;
    Some((time.timestamp(), time.timestamp_subsec_nanos()))
}

/// Calls `chrono::Utc.datetime_from_str`, then `timestamp` and
/// `timestamp_subsec_nanos` on what it returns. Claimed: the outcome depends
/// on the text and the format alone.
#[verifier::external_body]
#[allow(deprecated)]
pub(crate) fn parse_utc(text: &str, format: &str) -> (instant: Option<(i64, u32)>)
    ensures
        instant == utc_instant(text@, format@),
{
    let time = chrono::Utc.datetime_from_str(text, format).ok()?;
    Some((time.timestamp(), time.timestamp_subsec_nanos()))
}

/// Calls `serde_json::from_slice` for a `Vec<String>`. Claimed: the outcome
/// depends on the document alone.
#[verifier::external_body]
pub(crate) fn parse_json_strings(document: &[u8]) -> (strings: Option<Vec<String>>)
    ensures
        strings is Some <==> json_strings(document@) is Some,
        strings is Some ==> texts_of(strings->0@) == json_strings(document@)->0,
{
    serde_json::from_slice::<Vec<String>>(document).ok()
}

} // verus!
