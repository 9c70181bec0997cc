//! Decoding of the return payloads of read-only contract calls: one unsigned
//! 32-bit number, or one string of dynamic length.

use crate::bytes::{be_nat, copy_range, lemma_be_nat_four, read_be_capped};
use vstd::prelude::*;
use vstd::utf8::{decode_utf8, valid_utf8};

verus! {

/// Why a payload could not be decoded.
#[derive(Clone, Copy, Debug, PartialEq, Eq, Structural)]
pub enum DecodeError {
    /// The payload does not hold a first 32-byte word.
    TooShort,
    /// The first word points to a place where no length word fits.
    OffsetOutOfRange,
    /// The length word promises more bytes than the payload holds.
    LengthOutOfRange,
    /// The string's bytes are not valid UTF-8.
    InvalidUtf8,
}

/// Size of one word of a payload.
pub const WORD: usize = 32;

/// The number that a payload holds: the last four bytes of its first word,
/// big-endian.
pub open spec fn uint32_of(payload: Seq<u8>) -> Result<u32, DecodeError> {
    if payload.len() < 32 {
        Err(DecodeError::TooShort)
    } else {
        Ok(be_nat(payload.subrange(28, 32)) as u32)
    }
}

/// The bytes of the string that a payload holds. The first word gives the
/// offset of the length word, the length word the number of bytes that follow
/// it; what stands behind them is padding.
pub open spec fn string_bytes_of(payload: Seq<u8>) -> Result<Seq<u8>, DecodeError> {
    if payload.len() < 32 {
        Err(DecodeError::TooShort)
    } else {
        let offset = be_nat(payload.subrange(0, 32)) as int;
        if offset + 32 > payload.len() {
            Err(DecodeError::OffsetOutOfRange)
        } else {
            let count = be_nat(payload.subrange(offset, offset + 32)) as int;
            if offset + 32 + count > payload.len() {
                Err(DecodeError::LengthOutOfRange)
            } else {
                Ok(payload.subrange(offset + 32, offset + 32 + count))
            }
        }
    }
}

/// The string that a payload holds.
pub open spec fn string_of(payload: Seq<u8>) -> Result<Seq<char>, DecodeError> {
    match string_bytes_of(payload) {
        Err(e) => Err(e),
        Ok(data) => if valid_utf8(data) {
            Ok(decode_utf8(data))
        } else {
            Err(DecodeError::InvalidUtf8)
        },
    }
}

/// Decodes an unsigned 32-bit number. The upper 28 bytes of the word are not
/// looked at.
pub fn read_uint32(payload: &Vec<u8>) -> (r: Result<u32, DecodeError>)
    ensures
        r == uint32_of(payload@),
{
    if payload.len() < WORD {
        return Err(DecodeError::TooShort);
    }
    proof {
        lemma_be_nat_four(payload@.subrange(28, 32));
    }
    match read_be_capped(payload, 28, 4, 0xffff_ffff) {
        Some(v) => Ok(v as u32),
        None => Err(DecodeError::TooShort),
    }
}

/// Finds the bytes of the string in a payload.
pub fn read_string_bytes(payload: &Vec<u8>) -> (r: Result<Vec<u8>, DecodeError>)
    ensures
        match r {
            Ok(data) => string_bytes_of(payload@) == Ok::<Seq<u8>, DecodeError>(data@),
            Err(e) => string_bytes_of(payload@) == Err::<Seq<u8>, DecodeError>(e),
        },
{
    let len: usize = payload.len();
    if len < WORD {
        return Err(DecodeError::TooShort);
    }
    let offset: usize = match read_be_capped(payload, 0, WORD, (len - WORD) as u64) {
        Some(v) => v as usize,
        None => {
            return Err(DecodeError::OffsetOutOfRange);
        },
    };
    let start: usize = offset + WORD;
    let count: usize = match read_be_capped(payload, offset, WORD, (len - start) as u64) {
        Some(v) => v as usize,
        None => {
            return Err(DecodeError::LengthOutOfRange);
        },
    };
    Ok(copy_range(payload, start, start + count))
}

/// Calls `String::from_utf8`. The contract claims what std documents: the
/// call succeeds exactly on valid UTF-8, and the string then holds the
/// characters that those bytes encode.
#[verifier::external_body]
pub(crate) fn utf8_string(data: Vec<u8>) -> (r: Option<String>)
    ensures
        r.is_some() == valid_utf8(data@),
        r.is_some() ==> r.unwrap()@ == decode_utf8(data@),
{
    match String::from_utf8(data) {
        Ok(s) => Some(s),
        Err(_) => None,
    }
}

/// Decodes a string of dynamic length.
pub fn read_string(payload: &Vec<u8>) -> (r: Result<String, DecodeError>)
    ensures
        match r {
            Ok(s) => string_of(payload@) == Ok::<Seq<char>, DecodeError>(s@),
            Err(e) => string_of(payload@) == Err::<Seq<char>, DecodeError>(e),
        },
{
    match read_string_bytes(payload) {
        Err(e) => Err(e),
        Ok(data) => match utf8_string(data) {
            Some(s) => Ok(s),
            None => Err(DecodeError::InvalidUtf8),
        },
    }
}

} // verus!
