use vstd::prelude::*;

use crate::com::{ByteCount, ComdeError};
use crate::stream::{ByteReader, ByteWriter};
use crate::{Compress, Compressor, Decompress, Decompressor};

verus! {

/// What a byte sequence decodes to under the DEFLATE codec: `Some` of the
/// original bytes for exactly the sequences some DEFLATE encoding produced,
/// `None` for malformed or truncated ones. Decoding depends on the compressed
/// bytes alone.
pub uninterp spec fn deflate_decode(bytes: Seq<u8>) -> Option<Seq<u8>>;

/// What the DEFLATE encoder produces for given input bytes: it runs in
/// memory with fixed settings, so the result is a function of the input
/// alone — equal inputs give equal compressed bytes.
pub uninterp spec fn deflate_encode(bytes: Seq<u8>) -> Seq<u8>;

/// Relies on flate2::read::DeflateEncoder: on in-memory input at the
/// default level it cannot fail; it produces a complete DEFLATE stream,
/// always the same one for the same input, and flate2::read::DeflateDecoder
/// decodes that stream back to exactly the input bytes.
#[verifier::external_body]
fn deflate_compress_bytes(input: &[u8]) -> (r: Vec<u8>)
    ensures
        r@ == deflate_encode(input@),
        deflate_decode(r@) == Some(input@),
{
    let mut encoder = flate2::read::DeflateEncoder::new(input, flate2::Compression::default());
    let mut out: Vec<u8> = Vec::new();
    std::io::Read::read_to_end(&mut encoder, &mut out).unwrap();
    out
}

/// Relies on flate2::read::DeflateDecoder: decoding is a function of the
/// compressed bytes alone, succeeds on every well-formed DEFLATE stream and
/// rejects malformed or truncated input with an error.
#[verifier::external_body]
fn deflate_decompress_bytes(input: &[u8]) -> (r: Result<Vec<u8>, ComdeError>)
    ensures
        match r {
            Ok(d) => deflate_decode(input@) == Some(d@),
            Err(e) => deflate_decode(input@) is None && e is Codec,
        },
{
    let mut decoder = flate2::read::DeflateDecoder::new(input);
    let mut out: Vec<u8> = Vec::new();
    match std::io::Read::read_to_end(&mut decoder, &mut out) {
        Ok(_) => Ok(out),
        Err(e) => Err(ComdeError::Codec(e.to_string())),
    }
}

#[derive(Debug, Copy, Clone)]
pub struct DeflateCompressor;

impl Compressor for DeflateCompressor {
    open spec fn decode_spec(bytes: Seq<u8>) -> Option<Seq<u8>> {
        deflate_decode(bytes)
    }

    open spec fn encode_spec(bytes: Seq<u8>) -> Seq<u8> {
        deflate_encode(bytes)
    }

    fn new() -> Self {
        DeflateCompressor
    }

    fn compress(&self, writer: &mut ByteWriter, reader: &mut ByteReader) -> (r: Result<
        ByteCount,
        ComdeError,
    >) {
        let input = reader.read_to_end();
        let c = deflate_compress_bytes(input.as_slice());
        let start = writer.position();
        writer.write_all(c.as_slice());
        let end = writer.position();
        Ok(ByteCount { read: input.len() as u64, write: end - start })
    }

    fn compress_value<V: Compress>(&self, value: &V) -> (r: Result<Vec<u8>, ComdeError>) {
        let mut w = ByteWriter::new();
        value.to_writer(&mut w);
        let bytes = w.into_inner();
        proof {
            assert(bytes@ =~= value.repr());
        }
        Ok(deflate_compress_bytes(bytes.as_slice()))
    }
}

#[derive(Debug, Copy, Clone)]
pub struct DeflateDecompressor;

impl Decompressor for DeflateDecompressor {
    open spec fn decode_spec(bytes: Seq<u8>) -> Option<Seq<u8>> {
        deflate_decode(bytes)
    }

    fn new() -> Self {
        DeflateDecompressor
    }

    fn copy(&self, source: &mut ByteReader, dest: &mut ByteWriter) -> (r: Result<u64, ComdeError>) {
        let input = source.read_to_end();
        match deflate_decompress_bytes(input.as_slice()) {
            Ok(d) => {
                let n = d.len() as u64;
                dest.write_all(d.as_slice());
                Ok(n)
            },
            Err(e) => Err(e),
        }
    }

    fn from_reader<V: Decompress>(&self, reader: &mut ByteReader) -> (r: Result<V, ComdeError>) {
        let input = reader.read_to_end();
        match deflate_decompress_bytes(input.as_slice()) {
            Ok(d) => {
                let mut decoded = ByteReader::new(d);
                V::from_reader(&mut decoded)
            },
            Err(e) => Err(e),
        }
    }
}

/// The DEFLATE compressor and decompressor form one codec: they agree on
/// what every compressed byte sequence decodes to.
pub proof fn deflate_matched_pair()
    ensures
        crate::matched_pair::<DeflateCompressor, DeflateDecompressor>(),
{
}

} // verus!
