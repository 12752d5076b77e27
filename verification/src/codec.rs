//! The payload of a frame: a block of LZ4-compressed pixel bytes behind a
//! four-byte little-endian count of the bytes it expands to.
//!
//! Compressing and expanding are the work of the `lz4_flex` crate. What the
//! two calls return is named here, not described; the checks around them are
//! this module's own.

use vstd::prelude::*;
use crate::bytes::{le32, le32_bytes, lemma_le32_of_bytes, u32_from_le};
use crate::protocol::MAX_FRAME_BYTES;

verus! {

/// The longest payload that is ever expanded: what compressing
/// `MAX_FRAME_BYTES` bytes can give at worst, count included.
pub const MAX_PAYLOAD_BYTES: usize = 168_984;

/// The error type of `lz4_flex`'s block decoder.
#[verifier::external_type_specification]
#[verifier::external_body]
pub struct ExDecompressError(lz4_flex::block::DecompressError);

/// What `lz4_flex::block::compress_prepend_size` returns for `raw`.
pub uninterp spec fn lz4_encoded(raw: Seq<u8>) -> Seq<u8>;

/// What `lz4_flex::block::decompress_size_prepended` returns for `payload`:
/// the bytes on success, `None` on any error.
pub uninterp spec fn lz4_decoded(payload: Seq<u8>) -> Option<Seq<u8>>;

/// Calls `lz4_flex::block::compress_prepend_size`.
///
/// Taken on trust: the result is the named encoding of the input; it starts
/// with the input's length as four little-endian bytes; it is no longer than
/// the output buffer that the crate sizes for it; and the crate's decoder
/// gives the input back for it. The input is kept small enough for the
/// crate's size arithmetic.
#[verifier::external_body]
fn lz4_compress(raw: &[u8]) -> (out: Vec<u8>)
    requires
        raw@.len() <= MAX_FRAME_BYTES,
    ensures
        out@ == lz4_encoded(raw@),
        4 <= out@.len() <= 24 + raw@.len() * 110 / 100,
        out@.subrange(0, 4) == le32_bytes(raw@.len() as u32),
        lz4_decoded(out@) == Some(raw@),
{
    lz4_flex::block::compress_prepend_size(raw)
}

/// Calls `lz4_flex::block::decompress_size_prepended`.
///
/// Taken on trust: the result is the named decoding of the input; an input
/// of fewer than four bytes is an error; and the bytes returned are never
/// more than the count at the front of the input. The caller bounds the
/// input and that count, which the crate allocates in full before it reads
/// on.
#[verifier::external_body]
fn lz4_decompress(payload: &[u8]) -> (res: Result<Vec<u8>, lz4_flex::block::DecompressError>)
    requires
        payload@.len() <= MAX_PAYLOAD_BYTES,
        payload@.len() >= 4 ==> le32(payload@) <= MAX_FRAME_BYTES,
    ensures
        res matches Ok(v) ==> lz4_decoded(payload@) == Some(v@) && payload@.len() >= 4 && v@.len()
            <= le32(payload@),
        res is Err ==> lz4_decoded(payload@) is None,
{
    lz4_flex::block::decompress_size_prepended(payload)
}

/// Why a payload was not expanded.
#[derive(Clone, Copy, Debug, PartialEq, Eq, Structural)]
pub enum DecodeError {
    /// Fewer than the four bytes of the count.
    Truncated,
    /// The payload, or the count it declares, is over the bound.
    TooLarge,
    /// The compressed block is not valid.
    Corrupt,
    /// The block expanded to another length than the count declares.
    LengthMismatch,
}

/// Why an image was not compressed.
#[derive(Clone, Copy, Debug, PartialEq, Eq, Structural)]
pub enum EncodeError {
    /// More than `MAX_FRAME_BYTES` of pixel data.
    TooLarge,
    /// The pixel data is not `width * height` pixels.
    SizeMismatch,
}

/// What is kept of the decoder's answer: the bytes, if there are exactly as
/// many as declared.
pub open spec fn checked(declared: int, decoded: Option<Seq<u8>>) -> Result<Seq<u8>, DecodeError> {
    match decoded {
        None => Err(DecodeError::Corrupt),
        Some(image) => if image.len() == declared {
            Ok(image)
        } else {
            Err(DecodeError::LengthMismatch)
        },
    }
}

/// The pixel bytes that a payload stands for, or why it stands for none.
pub open spec fn decoded_payload(payload: Seq<u8>) -> Result<Seq<u8>, DecodeError> {
    if payload.len() < 4 {
        Err(DecodeError::Truncated)
    } else if payload.len() > MAX_PAYLOAD_BYTES || le32(payload) > MAX_FRAME_BYTES {
        Err(DecodeError::TooLarge)
    } else {
        checked(le32(payload), lz4_decoded(payload))
    }
}

/// A result with its bytes as a plain value.
pub open spec fn bytes_of(r: Result<Vec<u8>, DecodeError>) -> Result<Seq<u8>, DecodeError> {
    match r {
        Ok(v) => Ok(v@),
        Err(e) => Err(e),
    }
}

/// The decoder's answer as plain values.
pub open spec fn answer_of(
    result: Result<Vec<u8>, lz4_flex::block::DecompressError>,
) -> Option<Seq<u8>> {
    match result {
        Ok(v) => Some(v@),
        Err(_) => None,
    }
}

/// Judges what the decoder returned against the declared count: an error of
/// the decoder is `Corrupt`, bytes of another length are `LengthMismatch`,
/// and only bytes of the declared length are handed on.
pub fn check_decoded(declared: u32, result: Result<Vec<u8>, lz4_flex::block::DecompressError>) -> (r:
    Result<Vec<u8>, DecodeError>)
    ensures
        bytes_of(r) == checked(declared as int, answer_of(result)),
{
    match result {
        Ok(image) => {
            if image.len() == declared as usize {
                Ok(image)
            } else {
                Err(DecodeError::LengthMismatch)
            }
        },
        Err(_) => Err(DecodeError::Corrupt),
    }
}

/// Expands a payload into pixel bytes. A payload that is cut short, over
/// the bound, corrupt, or of another length than it declares gives its
/// error, and nothing else happens.
pub fn decode_payload(payload: &[u8]) -> (r: Result<Vec<u8>, DecodeError>)
    ensures
        bytes_of(r) == decoded_payload(payload@),
{
    if payload.len() < 4 {
        return Err(DecodeError::Truncated);
    }
    let declared: u32 = u32_from_le(payload);
    if payload.len() > MAX_PAYLOAD_BYTES || declared as usize > MAX_FRAME_BYTES {
        return Err(DecodeError::TooLarge);
    }
    check_decoded(declared, lz4_decompress(payload))
}

/// Compresses pixel bytes into a payload. More than `MAX_FRAME_BYTES` is
/// refused. The payload declares the length of the input, fits the bound of
/// the decoder, and expands to the input again.
pub fn encode_payload(raw: &[u8]) -> (r: Result<Vec<u8>, EncodeError>)
    ensures
        r is Err <==> raw@.len() > MAX_FRAME_BYTES,
        r matches Err(e) ==> e == EncodeError::TooLarge,
        r matches Ok(p) ==> {
            &&& p@ == lz4_encoded(raw@)
            &&& 4 <= p@.len() <= MAX_PAYLOAD_BYTES
            &&& le32(p@) == raw@.len()
            &&& decoded_payload(p@) == Ok::<Seq<u8>, DecodeError>(raw@)
        },
{
    if raw.len() > MAX_FRAME_BYTES {
        return Err(EncodeError::TooLarge);
    }
    let payload: Vec<u8> = lz4_compress(raw);
    proof {
        lemma_le32_of_bytes(raw@.len() as u32);
        let head = payload@.subrange(0, 4);
        assert(head[0] == payload@[0] && head[1] == payload@[1] && head[2] == payload@[2]
            && head[3] == payload@[3]);
        assert(le32(payload@) == le32(head));
    }
    Ok(payload)
}

/// Expanding is a function of the payload bytes alone: whatever it gave for
/// a payload once, it gives for the same bytes again.
pub proof fn lemma_decode_repeatable(
    payload: Seq<u8>,
    again: Seq<u8>,
    first: Result<Seq<u8>, DecodeError>,
    second: Result<Seq<u8>, DecodeError>,
)
    requires
        payload == again,
        first == decoded_payload(payload),
        second == decoded_payload(again),
    ensures
        first == second,
{
}

} // verus!
