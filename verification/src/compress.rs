//! The compression layer of the persisted format.
//!
//! The structural encoding of a font is wrapped in LZ4 compression, done by
//! the `lz4_compression` crate. Verus does not read the compressor; its
//! output is named by [`lz4_of`], and the one fact the library relies on is
//! that decompression inverts compression (the compression is lossless).

use vstd::prelude::*;

verus! {

/// Why a byte string failed to decompress; mirrors the decompressor's own
/// error, case for case.
#[derive(Clone, Copy, PartialEq, Eq, Debug)]
pub enum DecompressError {
    /// The input ended before the stream was complete.
    UnexpectedEnd,
    /// A back reference pointed outside the bytes already produced.
    InvalidDeduplicationOffset,
}

/// The compressed stream that the LZ4 compressor produces for the given
/// bytes.
pub uninterp spec fn lz4_of(data: Seq<u8>) -> Seq<u8>;

/// What the LZ4 decompressor makes of the given bytes: the decompressed
/// stream, or nothing where it rejects them. The decompressor reads only
/// its input, so this is a function of the bytes alone.
pub uninterp spec fn lz4_decompressed(data: Seq<u8>) -> Option<Seq<u8>>;

/// Relies on `lz4_compression::compress::compress`: its result is a
/// function of the input bytes alone.
#[verifier::external_body]
pub fn compress(data: &[u8]) -> (r: Vec<u8>)
    ensures
        r@ == lz4_of(data@),
{
    lz4_compression::compress::compress(data)
}

/// Relies on `lz4_compression::decompress::decompress`: it inverts
/// `compress` (the compression is lossless), and its error has exactly the
/// two cases this module's [`DecompressError`] mirrors.
#[verifier::external_body]
pub fn decompress(data: &[u8]) -> (r: Result<Vec<u8>, DecompressError>)
    ensures
        r is Ok <==> lz4_decompressed(data@) is Some,
        r matches Ok(d) ==> Some(d@) == lz4_decompressed(data@),
        r is Err ==> (forall|original: Seq<u8>| data@ != lz4_of(original)),
        r matches Ok(d) ==> (forall|original: Seq<u8>|
            data@ == lz4_of(original) ==> d@ == original),
{
    match lz4_compression::decompress::decompress(data) {
        Ok(d) => Ok(d),
        Err(lz4_compression::decompress::Error::UnexpectedEnd) => Err(
            DecompressError::UnexpectedEnd,
        ),
        Err(lz4_compression::decompress::Error::InvalidDeduplicationOffset) => Err(
            DecompressError::InvalidDeduplicationOffset,
        ),
    }
}

} // verus!
