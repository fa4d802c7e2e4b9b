use vstd::prelude::*;

use crate::com::{ByteCount, ComdeError};
use crate::stream::{ByteReader, ByteWriter};
use crate::{Compress, Compressor, Decompress, Decompressor};

verus! {

/// What a byte sequence decodes to under the Zstandard codec: `Some` of the
/// original bytes for exactly the sequences some Zstandard encoding produced,
/// `None` for malformed or truncated ones. Decoding depends on the compressed
/// bytes alone.
pub uninterp spec fn zstd_decode(bytes: Seq<u8>) -> Option<Seq<u8>>;

/// What the Zstandard encoder produces for given input bytes: it runs in
/// memory with fixed settings, so the result is a function of the input
/// alone — equal inputs give equal compressed bytes.
pub uninterp spec fn zstd_encode(bytes: Seq<u8>) -> Seq<u8>;

/// Relies on zstd::stream::encode_all: on in-memory input at this fixed,
/// valid level it cannot fail; it writes a complete Zstandard frame,
/// always the same one for the same input, and zstd::stream::decode_all
/// decodes that frame back to exactly the input bytes.
#[verifier::external_body]
fn zstd_compress_bytes(input: &[u8]) -> (r: Vec<u8>)
    ensures
        r@ == zstd_encode(input@),
        zstd_decode(r@) == Some(input@),
{
    zstd::stream::encode_all(input, 21).unwrap()
}

/// Relies on zstd::stream::decode_all: decoding is a function of the
/// compressed bytes alone, succeeds on every well-formed frame and rejects
/// malformed or truncated input with an error.
#[verifier::external_body]
fn zstd_decompress_bytes(input: &[u8]) -> (r: Result<Vec<u8>, ComdeError>)
    ensures
        match r {
            Ok(d) => zstd_decode(input@) == Some(d@),
            Err(e) => zstd_decode(input@) is None && e is Codec,
        },
{
    match zstd::stream::decode_all(input) {
        Ok(d) => Ok(d),
        Err(e) => Err(ComdeError::Codec(e.to_string())),
    }
}

#[derive(Debug, Copy, Clone)]
pub struct ZstdCompressor;

impl Compressor for ZstdCompressor {
    open spec fn decode_spec(bytes: Seq<u8>) -> Option<Seq<u8>> {
        zstd_decode(bytes)
    }

    open spec fn encode_spec(bytes: Seq<u8>) -> Seq<u8> {
        zstd_encode(bytes)
    }

    fn new() -> Self {
        ZstdCompressor
    }

    fn compress(&self, writer: &mut ByteWriter, reader: &mut ByteReader) -> (r: Result<
        ByteCount,
        ComdeError,
    >) {
        let input = reader.read_to_end();
        let c = zstd_compress_bytes(input.as_slice());
        let start = writer.position();
        writer.write_all(c.as_slice());
        let end = writer.position();
        Ok(ByteCount { read: input.len() as u64, write: end - start })
    }

    fn compress_value<V: Compress>(&self, value: &V) -> (r: Result<Vec<u8>, ComdeError>) {
        let mut w = ByteWriter::new();
        value.to_writer(&mut w);
        let bytes = w.into_inner();
        proof {
            assert(bytes@ =~= value.repr());
        }
        Ok(zstd_compress_bytes(bytes.as_slice()))
    }
}

#[derive(Debug, Copy, Clone)]
pub struct ZstdDecompressor;

impl Decompressor for ZstdDecompressor {
    open spec fn decode_spec(bytes: Seq<u8>) -> Option<Seq<u8>> {
        zstd_decode(bytes)
    }

    fn new() -> Self {
        ZstdDecompressor
    }

    fn copy(&self, source: &mut ByteReader, dest: &mut ByteWriter) -> (r: Result<u64, ComdeError>) {
        let input = source.read_to_end();
        match zstd_decompress_bytes(input.as_slice()) {
            Ok(d) => {
                let n = d.len() as u64;
                dest.write_all(d.as_slice());
                Ok(n)
            },
            Err(e) => Err(e),
        }
    }

    fn from_reader<V: Decompress>(&self, reader: &mut ByteReader) -> (r: Result<V, ComdeError>) {
        let input = reader.read_to_end();
        match zstd_decompress_bytes(input.as_slice()) {
            Ok(d) => {
                let mut decoded = ByteReader::new(d);
                V::from_reader(&mut decoded)
            },
            Err(e) => Err(e),
        }
    }
}

/// The Zstandard compressor and decompressor form one codec: they agree on
/// what every compressed byte sequence decodes to.
pub proof fn zstandard_matched_pair()
    ensures
        crate::matched_pair::<ZstdCompressor, ZstdDecompressor>(),
{
}

} // verus!
