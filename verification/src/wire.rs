//! The binary layout of a creation record, and its decoder.
//!
//! A record is three texts (name, symbol, uri), each a four-byte
//! little-endian length followed by that many bytes of UTF-8, and then three
//! 32-byte keys (mint, bonding curve, user). In a buffer of more than
//! eight bytes the record follows an eight-byte discriminant.

use vstd::prelude::*;
use vstd::slice::{slice_subrange, slice_to_vec};
use vstd::utf8::{decode_utf8, valid_utf8};
use crate::error::{DecodeError, Field};

verus! {

/// Bytes in a key.
pub const KEY_BYTES: usize = 32;

/// Bytes in the discriminant that precedes a record.
pub const PREFIX_BYTES: usize = 8;

/// The value of four bytes read as an unsigned little-endian integer.
pub open spec fn le_u32(b: Seq<u8>) -> int
    recommends
        b.len() >= 4,
{
    b[0] as int + b[1] as int * 0x100 + b[2] as int * 0x1_0000 + b[3] as int * 0x100_0000
}

/// Reads the first four bytes of `data` as an unsigned little-endian integer.
pub fn read_u32(data: &[u8]) -> (value: u32)
    requires
        data@.len() >= 4,
    ensures
        value as int == le_u32(data@),
{
    let b0: u32 = data[0] as u32;
    let b1: u32 = data[1] as u32;
    let b2: u32 = data[2] as u32;
    let b3: u32 = data[3] as u32;
    b0 + b1 * 0x100 + b2 * 0x1_0000 + b3 * 0x100_0000
}

/// What a creation record holds.
pub struct RecordModel {
    pub name: Seq<char>,
    pub symbol: Seq<char>,
    pub uri: Seq<char>,
    pub mint: Seq<u8>,
    pub bonding_curve: Seq<u8>,
    pub user: Seq<u8>,
}

/// A creation record as it stands in a payload: the texts, and the keys as
/// raw bytes.
#[derive(Clone, Debug, PartialEq, Eq)]
pub struct CreateRecord {
    pub name: String,
    pub symbol: String,
    pub uri: String,
    pub mint: [u8; 32],
    pub bonding_curve: [u8; 32],
    pub user: [u8; 32],
}

impl View for CreateRecord {
    type V = RecordModel;

    open spec fn view(&self) -> RecordModel {
        RecordModel {
            name: self.name@,
            symbol: self.symbol@,
            uri: self.uri@,
            mint: self.mint@,
            bonding_curve: self.bonding_curve@,
            user: self.user@,
        }
    }
}

/// Where the record starts in a buffer: behind the discriminant, or at the
/// front of a buffer too short to hold one.
pub open spec fn body_offset(bytes: Seq<u8>) -> int {
    if bytes.len() > PREFIX_BYTES {
        PREFIX_BYTES as int
    } else {
        0
    }
}

/// The length-prefixed text at `at`, with the offset behind it.
pub open spec fn text_at(bytes: Seq<u8>, at: int, field: Field) -> Result<(Seq<char>, int), DecodeError> {
    if at + 4 > bytes.len() {
        Err(DecodeError::Truncated { field })
    } else {
        let len = le_u32(bytes.subrange(at, at + 4));
        let content = bytes.subrange(at + 4, at + 4 + len);
        if at + 4 + len > bytes.len() {
            Err(DecodeError::Truncated { field })
        } else if !valid_utf8(content) {
            Err(DecodeError::InvalidText { field })
        } else {
            Ok((decode_utf8(content), at + 4 + len))
        }
    }
}

/// The three keys at `at`.
pub open spec fn keys_at(bytes: Seq<u8>, at: int) -> Result<(Seq<u8>, Seq<u8>, Seq<u8>), DecodeError> {
    if at + 3 * KEY_BYTES > bytes.len() {
        Err(DecodeError::Truncated { field: Field::Keys })
    } else {
        Ok(
            (
                bytes.subrange(at, at + KEY_BYTES),
                bytes.subrange(at + KEY_BYTES, at + 2 * KEY_BYTES),
                bytes.subrange(at + 2 * KEY_BYTES, at + 3 * KEY_BYTES),
            ),
        )
    }
}

/// The record that starts at `at`. The fields are read in order, and the
/// first one that cannot be read gives the error.
pub open spec fn record_at(bytes: Seq<u8>, at: int) -> Result<RecordModel, DecodeError> {
    match text_at(bytes, at, Field::Name) {
        Err(e) => Err(e),
        Ok((name, symbol_at)) => match text_at(bytes, symbol_at, Field::Symbol) {
            Err(e) => Err(e),
            Ok((symbol, uri_at)) => match text_at(bytes, uri_at, Field::Uri) {
                Err(e) => Err(e),
                Ok((uri, keys_start)) => match keys_at(bytes, keys_start) {
                    Err(e) => Err(e),
                    Ok((mint, bonding_curve, user)) => Ok(
                        RecordModel { name, symbol, uri, mint, bonding_curve, user },
                    ),
                },
            },
        },
    }
}

/// The record that a buffer holds.
pub open spec fn decoded_record(bytes: Seq<u8>) -> Result<RecordModel, DecodeError> {
    record_at(bytes, body_offset(bytes))
}

/// `String::from_utf8` accepts exactly the byte vectors that are UTF-8, and
/// the string it returns then holds the characters that they encode.
pub assume_specification[ String::from_utf8 ](vec: Vec<u8>) -> (r: Result<
    String,
    std::string::FromUtf8Error,
>)
    ensures
        r is Ok <==> valid_utf8(vec@),
        r matches Ok(s) ==> s@ == decode_utf8(vec@),
;

/// The error of `String::from_utf8`.
#[verifier::external_type_specification]
#[verifier::external_body]
pub struct ExFromUtf8Error(std::string::FromUtf8Error);

/// Reads the length-prefixed text at `at`.
fn read_text(bytes: &[u8], at: usize, field: Field) -> (r: Result<(String, usize), DecodeError>)
    requires
        at <= bytes@.len(),
    ensures
        match text_at(bytes@, at as int, field) {
            Ok((text, next)) => r matches Ok((s, n)) && s@ == text && n == next,
            Err(e) => r == Err::<(String, usize), DecodeError>(e),
        },
{
    if bytes.len() - at < 4 {
        return Err(DecodeError::Truncated { field });
    }
    let len: usize = read_u32(slice_subrange(bytes, at, at + 4)) as usize;
    let start: usize = at + 4;
    if len > bytes.len() - start {
        return Err(DecodeError::Truncated { field });
    }
    let content = slice_to_vec(slice_subrange(bytes, start, start + len));
    match String::from_utf8(content) {
        Ok(text) => Ok((text, start + len)),
        Err(_) => Err(DecodeError::InvalidText { field }),
    }
}

/// Copies the key at `at`.
fn read_key(bytes: &[u8], at: usize) -> (key: [u8; 32])
    requires
        at + KEY_BYTES <= bytes@.len(),
    ensures
        key@ == bytes@.subrange(at as int, at + KEY_BYTES),
{
    let total: usize = bytes.len();
    let mut key: [u8; 32] = [0u8; 32];
    let mut i: usize = 0;
    while i < KEY_BYTES
        invariant
            i <= KEY_BYTES,
            at + KEY_BYTES <= total == bytes@.len(),
            forall|j: int| 0 <= j < i ==> key@[j] == bytes@[at + j],
        decreases KEY_BYTES - i,
    {
        key[i] = bytes[at + i];
        i += 1;
    }
    assert(key@ =~= bytes@.subrange(at as int, at + KEY_BYTES));
    key
}

/// Decodes the creation record that `bytes` holds.
///
/// A buffer of more than eight bytes is read from offset eight, a shorter
/// one from its front. The fields are read in order; the first that the
/// buffer is too short for, or whose bytes are not UTF-8, gives the error.
/// Bytes behind the keys are ignored.
pub fn decode_record(bytes: &[u8]) -> (r: Result<CreateRecord, DecodeError>)
    ensures
        match decoded_record(bytes@) {
            Ok(record) => r matches Ok(got) && got@ == record,
            Err(e) => r == Err::<CreateRecord, DecodeError>(e),
        },
{
    let start: usize = if bytes.len() > PREFIX_BYTES {
        PREFIX_BYTES
    } else {
        0
    };
    let (name, symbol_at) = match read_text(bytes, start, Field::Name) {
        Ok(read) => read,
        Err(e) => {
            return Err(e);
        },
    };
    let (symbol, uri_at) = match read_text(bytes, symbol_at, Field::Symbol) {
        Ok(read) => read,
        Err(e) => {
            return Err(e);
        },
    };
    let (uri, keys_start) = match read_text(bytes, uri_at, Field::Uri) {
        Ok(read) => read,
        Err(e) => {
            return Err(e);
        },
    };
    if bytes.len() - keys_start < 3 * KEY_BYTES {
        return Err(DecodeError::Truncated { field: Field::Keys });
    }
    let mint = read_key(bytes, keys_start);
    let bonding_curve = read_key(bytes, keys_start + KEY_BYTES);
    let user = read_key(bytes, keys_start + 2 * KEY_BYTES);
    Ok(CreateRecord { name, symbol, uri, mint, bonding_curve, user })
}

} // verus!
