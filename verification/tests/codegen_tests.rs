use comde::codegen::{DeflateMap, SnappyMap, XzMap, ZstdMap};
use comde::stream::{ByteReader, ByteWriter};
use comde::zstandard::ZstdDecompressor;
use comde::Decompressor;

#[test]
fn basic_snappy() {
    let mut map: SnappyMap<String> = SnappyMap::new();

    map.entry("boop", "this is a string string string string string string this is indeed a string string string".to_string());

    let mut out = ByteWriter::new();
    map.build(&mut out).unwrap();
    println!("snappy: {}", String::from_utf8(out.into_inner()).unwrap());
}

#[test]
fn basic_xz() {
    let mut map: XzMap<String> = XzMap::new();

    map.entry("boop", "this is a string string string string string string this is indeed a string string string".to_string());

    let mut out = ByteWriter::new();
    map.build(&mut out).unwrap();
    println!("xz: {}", String::from_utf8(out.into_inner()).unwrap());
}

#[test]
fn basic_deflate() {
    let mut map: DeflateMap<String> = DeflateMap::new();

    map.entry("boop", "this is a string string string string string string this is indeed a string string string".to_string());

    let mut out = ByteWriter::new();
    map.build(&mut out).unwrap();
    println!("deflate: {}", String::from_utf8(out.into_inner()).unwrap());
}

#[test]
fn basic_zstd() {
    let mut map: ZstdMap<String> = ZstdMap::new();

    map.entry("boop", "this is a string string string string string string this is indeed a string string string".to_string());

    let mut out = ByteWriter::new();
    map.build(&mut out).unwrap();
    println!("zstd: {}", String::from_utf8(out.into_inner()).unwrap());
}

#[test]
fn empty_map_builds() {
    let map: ZstdMap<String> = ZstdMap::new();
    assert_eq!(map.len(), 0);
    assert!(map.get("anything").is_none());
    assert!(map.get("").is_none());
    let mut out = ByteWriter::new();
    map.build(&mut out).unwrap();
    let text = String::from_utf8(out.into_inner()).unwrap();
    assert!(!text.is_empty());
}

#[test]
fn duplicate_key_last_insertion_wins() {
    let mut map: ZstdMap<String> = ZstdMap::new();
    map.entry("key", "first value".to_string());
    map.entry("key", "second value".to_string());
    assert_eq!(map.len(), 1);

    let blob = map.get("key").unwrap();
    let mut reader = ByteReader::new(blob);
    let back: String = ZstdDecompressor::new().from_reader(&mut reader).unwrap();
    assert_eq!(back, "second value".to_string());
}

#[test]
fn lookup_of_absent_key_reports_none() {
    let mut map: ZstdMap<String> = ZstdMap::new();
    map.entry("present", "value".to_string());
    assert!(map.get("absent").is_none());
    assert!(map.get("present").is_some());
}

#[test]
fn boop_roundtrips_through_every_codec_and_shrinks() {
    let value = "boop boop boop boop boop boop boop boop boop boop boop boop \
                 boop boop boop boop boop boop boop boop boop boop boop boop"
        .to_string();
    assert!(value.len() >= 100);

    let mut zstd_map: ZstdMap<String> = ZstdMap::new();
    zstd_map.entry("boop", value.clone());
    let blob = zstd_map.get("boop").unwrap();
    assert!(blob.len() < value.len());
    let mut reader = ByteReader::new(blob);
    let back: String = ZstdDecompressor::new().from_reader(&mut reader).unwrap();
    assert_eq!(back, value);

    let mut deflate_map: DeflateMap<String> = DeflateMap::new();
    deflate_map.entry("boop", value.clone());
    let blob = deflate_map.get("boop").unwrap();
    assert!(blob.len() < value.len());
    let mut reader = ByteReader::new(blob);
    let back: String =
        comde::deflate::DeflateDecompressor::new().from_reader(&mut reader).unwrap();
    assert_eq!(back, value);

    let mut xz_map: XzMap<String> = XzMap::new();
    xz_map.entry("boop", value.clone());
    let blob = xz_map.get("boop").unwrap();
    assert!(blob.len() < value.len());
    let mut reader = ByteReader::new(blob);
    let back: String = comde::xz::XzDecompressor::new().from_reader(&mut reader).unwrap();
    assert_eq!(back, value);

    // Snappy may not shrink short repetitive input; only fidelity is owed.
    let mut snappy_map: SnappyMap<String> = SnappyMap::new();
    snappy_map.entry("boop", value.clone());
    let blob = snappy_map.get("boop").unwrap();
    let mut reader = ByteReader::new(blob);
    let back: String =
        comde::snappy::SnappyDecompressor::new().from_reader(&mut reader).unwrap();
    assert_eq!(back, value);
}

#[test]
fn generated_source_uses_recorded_path() {
    let mut map: ZstdMap<String> = ZstdMap::new();
    map.entry("k", "v".to_string());
    map.phf_path("::my::phf");
    let mut out = ByteWriter::new();
    map.build(&mut out).unwrap();
    let text = String::from_utf8(out.into_inner()).unwrap();
    assert!(text.contains("::my::phf"));
    assert!(text.contains("\"k\""));
}
