//! Base32 and base64 text encoding, through outside encoders.
//!
//! The encodings themselves are RFC 4648 work done by the `data-encoding`
//! and `base64` crates; each is deterministic, so its result is a named
//! function of the input bytes, and the contracts here speak of the names.
use vstd::prelude::*;
use vstd::string::*;

verus! {

/// The character string that the RFC 4648 base32 encoding (with padding) of
/// a byte string yields.
pub uninterp spec fn base32_encoding(bytes: Seq<u8>) -> Seq<char>;

/// What base32 decoding yields: the decoded bytes, or nothing when the input
/// is not a valid encoding.
pub uninterp spec fn base32_decoding(bytes: Seq<u8>) -> Option<Seq<u8>>;

/// The character string that the RFC 4648 base64 encoding (standard
/// alphabet, with padding) of a byte string yields.
pub uninterp spec fn base64_encoding(bytes: Seq<u8>) -> Seq<char>;

/// What base64 decoding yields: the decoded bytes, or nothing when the input
/// is not a valid encoding.
pub uninterp spec fn base64_decoding(bytes: Seq<u8>) -> Option<Seq<u8>>;

/// Why a base32 text failed to decode, with the position of the first error.
#[derive(Clone, Copy, PartialEq, Eq, Structural, Debug)]
pub struct Base32DecodeError {
    pub position: usize,
    pub kind: Base32ErrorKind,
}

/// The base32 decoder's error classes.
#[derive(Clone, Copy, PartialEq, Eq, Structural, Debug)]
pub enum Base32ErrorKind {
    Length,
    Symbol,
    Trailing,
    Padding,
}

/// Why a base64 text failed to decode.
#[derive(Clone, Copy, PartialEq, Eq, Structural, Debug)]
pub enum Base64DecodeError {
    /// A byte outside the alphabet, with its offset and value.
    InvalidByte(usize, u8),
    /// The input's length is no valid encoding length.
    InvalidLength,
    /// The last symbol leaves non-zero trailing bits, with its offset and
    /// value.
    InvalidLastSymbol(usize, u8),
}

/// Relies on `data_encoding::BASE32.encode`: deterministic RFC 4648 base32
/// with padding, eight output characters per five-byte group, and decoding
/// its output gives back the input ("correct" in the crate's words). The
/// length bound keeps the crate's `encode_len` from panicking.
#[verifier::external_body]
fn base32_encode_raw(bytes: &[u8]) -> (r: String)
    requires
        bytes@.len() <= usize::MAX as int / 512,
    ensures
        r@ == base32_encoding(bytes@),
        r@.len() == 8 * ((bytes@.len() + 4) / 5),
        base32_decoding(r@.map_values(|c: char| c as u8)) == Some(bytes@),
{
    data_encoding::BASE32.encode(bytes)
}

/// Relies on `data_encoding::BASE32.decode`: deterministic; the decoded
/// bytes exactly when the input is a valid encoding, else an error, which is
/// carried over onto the library's error type variant by variant. The length
/// bound keeps the crate's `decode_len` from panicking.
#[verifier::external_body]
fn base32_decode_raw(input: &[u8]) -> (r: Result<Vec<u8>, Base32DecodeError>)
    requires
        input@.len() <= usize::MAX as int / 8,
    ensures
        match r {
            Ok(v) => base32_decoding(input@) == Some(v@),
            Err(_) => base32_decoding(input@) is None,
        },
{
    match data_encoding::BASE32.decode(input) {
        Ok(v) => Ok(v),
        Err(e) => Err(Base32DecodeError {
            position: e.position,
            kind: match e.kind {
                data_encoding::DecodeKind::Length => Base32ErrorKind::Length,
                data_encoding::DecodeKind::Symbol => Base32ErrorKind::Symbol,
                data_encoding::DecodeKind::Trailing => Base32ErrorKind::Trailing,
                data_encoding::DecodeKind::Padding => Base32ErrorKind::Padding,
            },
        }),
    }
}

/// Relies on `base64::encode`: deterministic RFC 4648 base64, standard
/// alphabet with padding, four output characters per three-byte group. The
/// length bound keeps the crate's buffer-size calculation from panicking.
#[verifier::external_body]
fn base64_encode_raw(bytes: &[u8]) -> (r: String)
    requires
        4 * ((bytes@.len() + 2) / 3) <= usize::MAX as int,
    ensures
        r@ == base64_encoding(bytes@),
        r@.len() == 4 * ((bytes@.len() + 2) / 3),
{
    base64::encode(bytes)
}

/// Relies on `base64::decode`: deterministic; the decoded bytes exactly when
/// the input is a valid encoding, else an error, carried over variant by
/// variant. The length bound keeps the crate's size estimate from panicking.
#[verifier::external_body]
fn base64_decode_raw(input: &[u8]) -> (r: Result<Vec<u8>, Base64DecodeError>)
    requires
        input@.len() + 3 <= usize::MAX as int,
    ensures
        match r {
            Ok(v) => base64_decoding(input@) == Some(v@),
            Err(_) => base64_decoding(input@) is None,
        },
{
    match base64::decode(input) {
        Ok(v) => Ok(v),
        Err(base64::DecodeError::InvalidByte(p, b)) => Err(Base64DecodeError::InvalidByte(p, b)),
        Err(base64::DecodeError::InvalidLength) => Err(Base64DecodeError::InvalidLength),
        Err(base64::DecodeError::InvalidLastSymbol(p, b)) => Err(
            Base64DecodeError::InvalidLastSymbol(p, b),
        ),
    }
}

/// Base32-encode a byte string. The length bound is the machine limit below
/// which the encoded length fits comfortably in `usize`.
pub fn base32_encode(bytes: &Vec<u8>) -> (r: String)
    requires
        bytes@.len() <= usize::MAX as int / 512,
    ensures
        r@ == base32_encoding(bytes@),
        r@.len() == 8 * ((bytes@.len() + 4) / 5),
        base32_decoding(r@.map_values(|c: char| c as u8)) == Some(bytes@),
{
    base32_encode_raw(bytes.as_slice())
}

/// Base32-decode a byte string: the decoded bytes exactly when the input is
/// a valid encoding.
pub fn base32_decode(input: &Vec<u8>) -> (r: Result<Vec<u8>, Base32DecodeError>)
    requires
        input@.len() <= usize::MAX as int / 8,
    ensures
        match r {
            Ok(v) => base32_decoding(input@) == Some(v@),
            Err(_) => base32_decoding(input@) is None,
        },
{
    base32_decode_raw(input.as_slice())
}

/// Base64-encode a byte string. The length bound is the machine limit below
/// which the encoded length fits in `usize`.
pub fn base64_encode(bytes: &Vec<u8>) -> (r: String)
    requires
        4 * ((bytes@.len() + 2) / 3) <= usize::MAX as int,
    ensures
        r@ == base64_encoding(bytes@),
        r@.len() == 4 * ((bytes@.len() + 2) / 3),
{
    base64_encode_raw(bytes.as_slice())
}

/// Base64-decode a byte string: the decoded bytes exactly when the input is
/// a valid encoding.
pub fn base64_decode(input: &Vec<u8>) -> (r: Result<Vec<u8>, Base64DecodeError>)
    requires
        input@.len() + 3 <= usize::MAX as int,
    ensures
        match r {
            Ok(v) => base64_decoding(input@) == Some(v@),
            Err(_) => base64_decoding(input@) is None,
        },
{
    base64_decode_raw(input.as_slice())
}

} // verus!
