use vstd::prelude::*;

use crate::com::{ByteCount, ComdeError};
use crate::stream::{ByteReader, ByteWriter};
use crate::{Compress, Compressor, Decompress, Decompressor};

verus! {

/// What a byte sequence decodes to under the LZMA/xz codec: `Some` of the
/// original bytes for exactly the sequences some xz encoding produced,
/// `None` for malformed or truncated ones. Decoding depends on the compressed
/// bytes alone.
pub uninterp spec fn xz_decode(bytes: Seq<u8>) -> Option<Seq<u8>>;

/// What the LZMA/xz encoder produces for given input bytes: it runs in
/// memory with fixed settings, so the result is a function of the input
/// alone — equal inputs give equal compressed bytes.
pub uninterp spec fn xz_encode(bytes: Seq<u8>) -> Seq<u8>;

/// Relies on xz2::read::XzEncoder: on in-memory input at this fixed level
/// it cannot fail; it produces a complete xz stream, always the same one
/// for the same input, and xz2::read::XzDecoder decodes that stream back
/// to exactly the input bytes.
#[verifier::external_body]
fn xz_compress_bytes(input: &[u8]) -> (r: Vec<u8>)
    ensures
        r@ == xz_encode(input@),
        xz_decode(r@) == Some(input@),
{
    let mut encoder = xz2::read::XzEncoder::new(input, 6);
    let mut out: Vec<u8> = Vec::new();
    std::io::Read::read_to_end(&mut encoder, &mut out).unwrap();
    out
}

/// Relies on xz2::read::XzDecoder: decoding is a function of the compressed
/// bytes alone, succeeds on every well-formed xz stream and rejects malformed
/// or truncated input with an error.
#[verifier::external_body]
fn xz_decompress_bytes(input: &[u8]) -> (r: Result<Vec<u8>, ComdeError>)
    ensures
        match r {
            Ok(d) => xz_decode(input@) == Some(d@),
            Err(e) => xz_decode(input@) is None && e is Codec,
        },
{
    let mut decoder = xz2::read::XzDecoder::new(input);
    let mut out: Vec<u8> = Vec::new();
    match std::io::Read::read_to_end(&mut decoder, &mut out) {
        Ok(_) => Ok(out),
        Err(e) => Err(ComdeError::Codec(e.to_string())),
    }
}

#[derive(Debug, Copy, Clone)]
pub struct XzCompressor;

impl Compressor for XzCompressor {
    open spec fn decode_spec(bytes: Seq<u8>) -> Option<Seq<u8>> {
        xz_decode(bytes)
    }

    open spec fn encode_spec(bytes: Seq<u8>) -> Seq<u8> {
        xz_encode(bytes)
    }

    fn new() -> Self {
        XzCompressor
    }

    fn compress(&self, writer: &mut ByteWriter, reader: &mut ByteReader) -> (r: Result<
        ByteCount,
        ComdeError,
    >) {
        let input = reader.read_to_end();
        let c = xz_compress_bytes(input.as_slice());
        let start = writer.position();
        writer.write_all(c.as_slice());
        let end = writer.position();
        Ok(ByteCount { read: input.len() as u64, write: end - start })
    }

    fn compress_value<V: Compress>(&self, value: &V) -> (r: Result<Vec<u8>, ComdeError>) {
        let mut w = ByteWriter::new();
        value.to_writer(&mut w);
        let bytes = w.into_inner();
        proof {
            assert(bytes@ =~= value.repr());
        }
        Ok(xz_compress_bytes(bytes.as_slice()))
    }
}

#[derive(Debug, Copy, Clone)]
pub struct XzDecompressor;

impl Decompressor for XzDecompressor {
    open spec fn decode_spec(bytes: Seq<u8>) -> Option<Seq<u8>> {
        xz_decode(bytes)
    }

    fn new() -> Self {
        XzDecompressor
    }

    fn copy(&self, source: &mut ByteReader, dest: &mut ByteWriter) -> (r: Result<u64, ComdeError>) {
        let input = source.read_to_end();
        match xz_decompress_bytes(input.as_slice()) {
            Ok(d) => {
                let n = d.len() as u64;
                dest.write_all(d.as_slice());
                Ok(n)
            },
            Err(e) => Err(e),
        }
    }

    fn from_reader<V: Decompress>(&self, reader: &mut ByteReader) -> (r: Result<V, ComdeError>) {
        let input = reader.read_to_end();
        match xz_decompress_bytes(input.as_slice()) {
            Ok(d) => {
                let mut decoded = ByteReader::new(d);
                V::from_reader(&mut decoded)
            },
            Err(e) => Err(e),
        }
    }
}

/// The LZMA/xz compressor and decompressor form one codec: they agree on
/// what every compressed byte sequence decodes to.
pub proof fn xz_matched_pair()
    ensures
        crate::matched_pair::<XzCompressor, XzDecompressor>(),
{
}

} // verus!
