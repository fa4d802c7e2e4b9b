use comde::com::ByteCount;
use comde::deflate::{DeflateCompressor, DeflateDecompressor};
use comde::roundtrip_bytes;
use comde::snappy::{SnappyCompressor, SnappyDecompressor};
use comde::stream::{ByteReader, ByteWriter};
use comde::xz::{XzCompressor, XzDecompressor};
use comde::zstandard::{ZstdCompressor, ZstdDecompressor};
use comde::{Compressor, Decompressor};

fn sample_inputs() -> Vec<Vec<u8>> {
    let mut large = Vec::new();
    for i in 0..10_000 {
        large.push((i % 7) as u8);
    }
    let mut all_bytes = Vec::new();
    for b in 0..=255u8 {
        all_bytes.push(b);
    }
    vec![
        Vec::new(),
        vec![0u8],
        vec![0x41u8],
        b"hello world".to_vec(),
        all_bytes,
        large,
    ]
}

#[test]
fn roundtrip_zstd() {
    for input in sample_inputs() {
        let out = roundtrip_bytes(&ZstdCompressor::new(), &ZstdDecompressor::new(), &input);
        assert_eq!(out, input);
    }
}

#[test]
fn roundtrip_xz() {
    for input in sample_inputs() {
        let out = roundtrip_bytes(&XzCompressor::new(), &XzDecompressor::new(), &input);
        assert_eq!(out, input);
    }
}

#[test]
fn roundtrip_deflate() {
    for input in sample_inputs() {
        let out = roundtrip_bytes(&DeflateCompressor::new(), &DeflateDecompressor::new(), &input);
        assert_eq!(out, input);
    }
}

#[test]
fn roundtrip_snappy() {
    for input in sample_inputs() {
        let out = roundtrip_bytes(&SnappyCompressor::new(), &SnappyDecompressor::new(), &input);
        assert_eq!(out, input);
    }
}

fn check_byte_counts<C: Compressor, D: Decompressor>(comp: C, decomp: D, input: &[u8]) {
    let mut reader = ByteReader::new(input.to_vec());
    let mut writer = ByteWriter::new();
    let count: ByteCount = comp.compress(&mut writer, &mut reader).unwrap();
    assert_eq!(count.read, input.len() as u64);
    let compressed = writer.into_inner();
    assert_eq!(count.write, compressed.len() as u64);

    let mut reader = ByteReader::new(compressed);
    let mut writer = ByteWriter::new();
    let written = decomp.copy(&mut reader, &mut writer).unwrap();
    let decoded = writer.into_inner();
    assert_eq!(written, decoded.len() as u64);
    assert_eq!(decoded, input.to_vec());
}

#[test]
fn byte_count_read_is_exact_input_length() {
    let input = b"a moderately sized input with some repetition repetition repetition";
    check_byte_counts(ZstdCompressor::new(), ZstdDecompressor::new(), input);
    check_byte_counts(XzCompressor::new(), XzDecompressor::new(), input);
    check_byte_counts(DeflateCompressor::new(), DeflateDecompressor::new(), input);
    check_byte_counts(SnappyCompressor::new(), SnappyDecompressor::new(), input);
}

#[test]
fn byte_counts_written_at_stream_offset() {
    let mut writer = ByteWriter::new();
    writer.write_all(b"prefix already in the stream");
    let start = writer.position();
    let input = b"payload payload payload payload";
    let mut reader = ByteReader::new(input.to_vec());
    let count = ZstdCompressor::new().compress(&mut writer, &mut reader).unwrap();
    assert_eq!(count.read, input.len() as u64);
    assert_eq!(count.write, writer.position() - start);
}

#[test]
fn empty_input_roundtrips_in_every_codec() {
    let empty: Vec<u8> = Vec::new();

    let out = roundtrip_bytes(&ZstdCompressor::new(), &ZstdDecompressor::new(), &empty);
    assert!(out.is_empty());
    let out = roundtrip_bytes(&XzCompressor::new(), &XzDecompressor::new(), &empty);
    assert!(out.is_empty());
    let out = roundtrip_bytes(&DeflateCompressor::new(), &DeflateDecompressor::new(), &empty);
    assert!(out.is_empty());
    let out = roundtrip_bytes(&SnappyCompressor::new(), &SnappyDecompressor::new(), &empty);
    assert!(out.is_empty());
}

fn compress_with<C: Compressor>(comp: C, input: &[u8]) -> Vec<u8> {
    let mut reader = ByteReader::new(input.to_vec());
    let mut writer = ByteWriter::new();
    comp.compress(&mut writer, &mut reader).unwrap();
    writer.into_inner()
}

fn expect_codec_error<D: Decompressor>(decomp: D, corrupt: Vec<u8>) {
    let mut reader = ByteReader::new(corrupt);
    let mut writer = ByteWriter::new();
    let result = decomp.copy(&mut reader, &mut writer);
    match result {
        Ok(_) => panic!("a truncated compressed sequence must not decode"),
        Err(e) => assert!(e.is_codec()),
    }
}

#[test]
fn truncated_input_is_a_codec_error() {
    let input = b"some data that compresses to more than a few bytes, repeated repeated";

    let compressed = compress_with(ZstdCompressor::new(), input);
    expect_codec_error(ZstdDecompressor::new(), compressed[..compressed.len() / 2].to_vec());

    let compressed = compress_with(XzCompressor::new(), input);
    expect_codec_error(XzDecompressor::new(), compressed[..compressed.len() / 2].to_vec());

    let compressed = compress_with(DeflateCompressor::new(), input);
    expect_codec_error(DeflateDecompressor::new(), compressed[..compressed.len() / 2].to_vec());

    let compressed = compress_with(SnappyCompressor::new(), input);
    expect_codec_error(SnappyDecompressor::new(), compressed[..compressed.len() / 2].to_vec());
}

#[test]
fn garbage_input_is_a_codec_error_not_a_partial_result() {
    expect_codec_error(ZstdDecompressor::new(), b"certainly not a zstd frame".to_vec());
    expect_codec_error(XzDecompressor::new(), b"certainly not an xz stream".to_vec());
    expect_codec_error(SnappyDecompressor::new(), b"certainly not a snappy frame".to_vec());
}

fn expect_deterministic<C: Compressor + Copy>(comp: C, input: &[u8]) {
    let first = compress_with(comp, input);
    let second = compress_with(comp, input);
    assert_eq!(first, second);
}

#[test]
fn equal_inputs_give_equal_compressed_bytes() {
    let input = b"the same input, compressed twice, must give the same bytes";
    expect_deterministic(ZstdCompressor::new(), input);
    expect_deterministic(XzCompressor::new(), input);
    expect_deterministic(DeflateCompressor::new(), input);
    expect_deterministic(SnappyCompressor::new(), input);
}
