//! Inflation of zlib-compressed chunk payloads.
use vstd::prelude::*;
use crate::region::ChunkRead;

verus! {

/// The bytes a zlib stream inflates to, or `None` where it is not a valid
/// stream.
pub uninterp spec fn zlib_inflated(compressed: Seq<u8>) -> Option<Seq<u8>>;

/// Relies on flate2's `read::ZlibDecoder`, read to its end: it yields the
/// inflated bytes of the stream, or an error for a corrupt stream; either
/// depends on the compressed bytes alone.
#[verifier::external_body]
fn zlib_inflate(compressed: &Vec<u8>) -> (r: Option<Vec<u8>>)
    ensures
        match r {
            Some(v) => zlib_inflated(compressed@) == Some(v@),
            None => zlib_inflated(compressed@) is None,
        },
{
    let mut out = Vec::new();
    let mut decoder = flate2::read::ZlibDecoder::new(compressed.as_slice());
    match std::io::Read::read_to_end(&mut decoder, &mut out) {
        Ok(_) => Some(out),
        Err(_) => None,
    }
}

/// The bytes a gzip stream inflates to, or `None` where it is not a valid
/// stream.
pub uninterp spec fn gzip_inflated(compressed: Seq<u8>) -> Option<Seq<u8>>;

/// Relies on flate2's `read::GzDecoder`, read to its end: it yields the
/// inflated bytes of the stream, or an error for a corrupt stream; either
/// depends on the compressed bytes alone.
#[verifier::external_body]
fn gzip_inflate(compressed: &Vec<u8>) -> (r: Option<Vec<u8>>)
    ensures
        match r {
            Some(v) => gzip_inflated(compressed@) == Some(v@),
            None => gzip_inflated(compressed@) is None,
        },
{
    let mut out = Vec::new();
    let mut decoder = flate2::read::GzDecoder::new(compressed.as_slice());
    match std::io::Read::read_to_end(&mut decoder, &mut out) {
        Ok(_) => Some(out),
        Err(_) => None,
    }
}

/// The raw NBT bytes of a `level.dat` file, which is gzip-compressed;
/// `None` where the file is not a valid gzip stream.
pub fn level_nbt(file: &Vec<u8>) -> (r: Option<Vec<u8>>)
    ensures
        match r {
            Some(v) => gzip_inflated(file@) == Some(v@),
            None => gzip_inflated(file@) is None,
        },
{
    gzip_inflate(file)
}

/// The raw NBT bytes of a chunk slot: the inflated payload of a zlib chunk;
/// `None` for every other slot and for a corrupt stream.
pub fn chunk_nbt(read: &ChunkRead) -> (r: Option<Vec<u8>>)
    ensures
        match read {
            ChunkRead::Zlib(p) => match r {
                Some(v) => zlib_inflated(p@) == Some(v@),
                None => zlib_inflated(p@) is None,
            },
            _ => r is None,
        },
{
    match read {
        ChunkRead::Zlib(p) => zlib_inflate(p),
        _ => None,
    }
}

} // verus!
