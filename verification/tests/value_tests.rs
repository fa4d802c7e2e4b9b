use comde::com::ComdeError;
use comde::deflate::{DeflateCompressor, DeflateDecompressor};
use comde::snappy::{SnappyCompressor, SnappyDecompressor};
use comde::stream::{ByteReader, ByteWriter};
use comde::xz::{XzCompressor, XzDecompressor};
use comde::zstandard::{ZstdCompressor, ZstdDecompressor};
use comde::{Compress, Compressor, Decompressor};

fn value_roundtrip<C: Compressor, D: Decompressor>(comp: C, decomp: D, text: &str) {
    let value = text.to_string();
    let compressed = comp.compress_value(&value).unwrap();
    let mut reader = ByteReader::new(compressed);
    let back: String = decomp.from_reader(&mut reader).unwrap();
    assert_eq!(back, value);
}

#[test]
fn string_value_roundtrips_in_every_codec() {
    for text in ["", "a", "boop", "ünïcödé — text ⚙", "line\nline\tline"] {
        value_roundtrip(ZstdCompressor::new(), ZstdDecompressor::new(), text);
        value_roundtrip(XzCompressor::new(), XzDecompressor::new(), text);
        value_roundtrip(DeflateCompressor::new(), DeflateDecompressor::new(), text);
        value_roundtrip(SnappyCompressor::new(), SnappyDecompressor::new(), text);
    }
}

#[test]
fn string_serializes_as_utf8_bytes() {
    let value = "héllo".to_string();
    let mut w = ByteWriter::new();
    value.to_writer(&mut w);
    assert_eq!(w.into_inner(), "héllo".as_bytes().to_vec());
}

#[test]
fn decoded_non_utf8_is_a_value_error_not_a_codec_error() {
    let raw: Vec<u8> = vec![0xff, 0xfe, 0x41];
    let mut reader = ByteReader::new(raw);
    let mut writer = ByteWriter::new();
    ZstdCompressor::new().compress(&mut writer, &mut reader).unwrap();
    let compressed = writer.into_inner();

    let mut reader = ByteReader::new(compressed);
    let result: Result<String, ComdeError> = ZstdDecompressor::new().from_reader(&mut reader);
    match result {
        Ok(_) => panic!("bytes that are not UTF-8 must not become a string"),
        Err(e) => {
            assert!(!e.is_codec());
            assert!(matches!(e, ComdeError::InvalidValue(_)));
        },
    }
}

#[test]
fn malformed_envelope_is_a_codec_error_for_values() {
    let mut reader = ByteReader::new(b"not a zstd frame at all".to_vec());
    let result: Result<String, ComdeError> = ZstdDecompressor::new().from_reader(&mut reader);
    match result {
        Ok(_) => panic!("garbage must not decode"),
        Err(e) => assert!(e.is_codec()),
    }
}

#[test]
fn reader_and_writer_track_positions() {
    let mut reader = ByteReader::new(vec![1u8, 2, 3]);
    let bytes = reader.read_to_end();
    assert_eq!(bytes, vec![1u8, 2, 3]);
    let again = reader.read_to_end();
    assert!(again.is_empty());

    let mut writer = ByteWriter::new();
    assert_eq!(writer.position(), 0);
    writer.write_all(&[9u8, 8]);
    assert_eq!(writer.position(), 2);
    writer.write_all(&[]);
    assert_eq!(writer.position(), 2);
    assert_eq!(writer.into_inner(), vec![9u8, 8]);
}
