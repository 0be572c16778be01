//! Gzip, as the `flate2` crate does it.
//!
//! What the encoder turns a byte string into takes pages to state, but depends
//! on the bytes alone: the stream it writes carries no time stamp, file name or
//! host system, and it writes into memory. The two functions below therefore
//! only name their results, failure included.

use vstd::prelude::*;

verus! {

/// The gzip stream that `flate2` writes for `data` at its default level,
/// `None` where the encoder reports an error.
pub uninterp spec fn gzip_stream(data: Seq<u8>) -> Option<Seq<u8>>;

/// The bytes that `flate2` reads out of the gzip stream `data`, `None` where
/// `data` is not such a stream.
pub uninterp spec fn gunzip_stream(data: Seq<u8>) -> Option<Seq<u8>>;

/// `flate2::write::GzEncoder` over a `Vec`, at `Compression::default()`:
/// `write_all` of `data`, then `finish`. The result is the gzip stream of
/// `data`, `None` standing for any error the encoder reports; the decoder
/// reads `data` back out of a stream that was written.
#[verifier::external_body]
pub(crate) fn gzip(data: &[u8]) -> (packed: Option<Vec<u8>>)
    ensures
        match packed {
            Some(stream) => gzip_stream(data@) == Some(stream@) && gunzip_stream(stream@) == Some(
                data@,
            ),
            None => gzip_stream(data@) is None,
        },
{
    let mut encoder = flate2::write::GzEncoder::new(Vec::new(), flate2::Compression::default());
    std::io::Write::write_all(&mut encoder, data).ok()?;
    encoder.finish().ok()
}

/// `flate2::read::GzDecoder` over a slice, read to its end. `None` stands for
/// any error the decoder reports.
#[verifier::external_body]
pub(crate) fn gunzip(data: &[u8]) -> (plain: Option<Vec<u8>>)
    ensures
        match plain {
            Some(bytes) => gunzip_stream(data@) == Some(bytes@),
            None => gunzip_stream(data@) is None,
        },
{
    let mut decoder = flate2::read::GzDecoder::new(data);
    let mut plain = Vec::new();
    std::io::Read::read_to_end(&mut decoder, &mut plain).ok()?;
    Some(plain)
}

} // verus!
