//! The zlib compression service, provided by miniz_oxide.
use vstd::prelude::*;
use miniz_oxide::inflate::DecompressError;
use crate::png::PNGError;

verus! {

#[verifier::external_type_specification]
#[verifier::external_body]
pub struct ExDecompressError(miniz_oxide::inflate::DecompressError);

/// The zlib stream that miniz_oxide produces for some bytes at level 0.
pub uninterp spec fn zlib_deflated(s: Seq<u8>) -> Seq<u8>;

/// The bytes that a zlib stream inflates to, or `None` if it is corrupt.
pub uninterp spec fn zlib_inflated(s: Seq<u8>) -> Option<Seq<u8>>;

/// Relies on `miniz_oxide::deflate::compress_to_vec_zlib` at level 0: the
/// stream depends on the input alone, and inflating it gives the input back.
#[verifier::external_body]
pub(crate) fn compress_zlib(data: &[u8]) -> (r: Vec<u8>)
    ensures
        r@ == zlib_deflated(data@),
        zlib_inflated(r@) == Some(data@),
{
    miniz_oxide::deflate::compress_to_vec_zlib(data, 0)
}

/// Relies on `miniz_oxide::inflate::decompress_to_vec_zlib`: it inflates a
/// zlib stream, and fails exactly on a corrupt one.
#[verifier::external_body]
fn inflate_zlib(data: &[u8]) -> (r: Result<Vec<u8>, DecompressError>)
    ensures
        match r {
            Ok(v) => zlib_inflated(data@) == Some(v@),
            Err(_) => zlib_inflated(data@) is None,
        },
{
    miniz_oxide::inflate::decompress_to_vec_zlib(data)
}

/// Inflates a zlib stream; `DecompressionFailure` on a corrupt one.
pub fn decompress_zlib(idat: &[u8]) -> (r: Result<Vec<u8>, PNGError>)
    ensures
        match zlib_inflated(idat@) {
            Some(v) => r is Ok && r->Ok_0@ == v,
            None => r == Err::<Vec<u8>, PNGError>(PNGError::DecompressionFailure),
        },
{
    match inflate_zlib(idat) {
        Ok(v) => Ok(v),
        Err(_) => Err(PNGError::DecompressionFailure),
    }
}

} // verus!
