use vstd::prelude::*;

pub mod codegen;
pub mod com;
pub mod deflate;
pub mod literal;
pub mod snappy;
pub mod stream;
pub mod text;
pub mod xz;
pub mod zstandard;

use crate::com::{ByteCount, ComdeError};
use crate::stream::{ByteReader, ByteWriter};

verus! {

/// A value that can serialize itself into a byte-writing stream, independent
/// of which codec later compresses those bytes.
pub trait Compress: Sized {
    /// The byte serialization of this value.
    spec fn repr(&self) -> Seq<u8>;

    /// Writes the serialization of `self` at the end of `w`.
    fn to_writer(&self, w: &mut ByteWriter)
        ensures
            final(w)@ == old(w)@ + self.repr(),
    ;
}

/// A value that can reconstruct itself from a byte-reading stream, after
/// decompression has recovered its serialized bytes.
pub trait Decompress: Sized {
    /// Which byte sequences are a valid serialization of some value.
    spec fn accepts(bytes: Seq<u8>) -> bool;

    /// Whether `self` is the value that `bytes` serializes.
    spec fn is_of_bytes(&self, bytes: Seq<u8>) -> bool;

    /// Reconstructs a value from every byte remaining in `r`.
    fn from_reader(r: &mut ByteReader) -> (res: Result<Self, ComdeError>)
        requires
            old(r).wf(),
        ensures
            final(r).wf(),
            final(r).data() == old(r).data(),
            final(r).remaining().len() == 0,
            match res {
                Ok(v) => Self::accepts(old(r).remaining()) && v.is_of_bytes(old(r).remaining()),
                Err(e) => !Self::accepts(old(r).remaining()) && e is InvalidValue,
            },
    ;
}

/// A stateless compression capability, one implementation per codec.
///
/// The codec itself is opaque: all that is stated of a compressed sequence is
/// what it decodes back to, through the codec's `decode_spec`.
pub trait Compressor: Sized {
    /// What a byte sequence decodes to under this codec: `Some(original)`
    /// for exactly the sequences some compression produced, `None` for
    /// malformed ones.
    spec fn decode_spec(bytes: Seq<u8>) -> Option<Seq<u8>>;

    /// What this codec's encoder produces for given input bytes. Encoding
    /// runs in memory with fixed settings, so it is a function of the input
    /// alone: equal inputs give equal compressed bytes and equal counts.
    spec fn encode_spec(bytes: Seq<u8>) -> Seq<u8>;

    /// Constructing a compressor never fails and needs no configuration.
    fn new() -> Self;

    /// Reads `reader` to exhaustion, writes the compressed representation at
    /// the end of `writer`, and accounts for the exact number of bytes read
    /// and written; the written count is taken from the writer's positions
    /// around the encoding, after the encoder has been finalized.
    /// Compression never rejects input based on content, and these in-memory
    /// streams cannot fail, so success is owed on every input.
    fn compress(&self, writer: &mut ByteWriter, reader: &mut ByteReader) -> (r: Result<
        ByteCount,
        ComdeError,
    >)
        requires
            old(reader).wf(),
        ensures
            final(reader).wf(),
            final(reader).data() == old(reader).data(),
            final(reader).remaining().len() == 0,
            r is Ok,
            final(writer)@ == old(writer)@ + Self::encode_spec(old(reader).remaining()),
            Self::decode_spec(Self::encode_spec(old(reader).remaining())) == Some(
                old(reader).remaining(),
            ),
            r->Ok_0.read == old(reader).remaining().len(),
            r->Ok_0.write == Self::encode_spec(old(reader).remaining()).len(),
    ;

    /// Single-value convenience path: serializes one in-memory value and
    /// returns just its compressed bytes, with no byte-count telemetry.
    /// Like [`Self::compress`], it is owed success on every value.
    fn compress_value<V: Compress>(&self, value: &V) -> (r: Result<Vec<u8>, ComdeError>)
        ensures
            r is Ok,
            r->Ok_0@ == Self::encode_spec(value.repr()),
            Self::decode_spec(Self::encode_spec(value.repr())) == Some(value.repr()),
    ;
}

/// A stateless decompression capability, symmetric to [`Compressor`].
pub trait Decompressor: Sized {
    /// What a byte sequence decodes to under this codec; a matching
    /// compressor's `decode_spec` is the same function.
    spec fn decode_spec(bytes: Seq<u8>) -> Option<Seq<u8>>;

    /// Constructing a decompressor never fails and needs no configuration.
    fn new() -> Self;

    /// Decodes every byte remaining in `source` and appends the decoded bytes
    /// to `dest`, returning how many bytes were written; a malformed or
    /// truncated source is reported as a codec error, never as a silent
    /// partial result.
    fn copy(&self, source: &mut ByteReader, dest: &mut ByteWriter) -> (r: Result<u64, ComdeError>)
        requires
            old(source).wf(),
        ensures
            final(source).wf(),
            final(source).data() == old(source).data(),
            final(source).remaining().len() == 0,
            match r {
                Ok(n) => {
                    &&& Self::decode_spec(old(source).remaining()) is Some
                    &&& final(dest)@ == old(dest)@ + Self::decode_spec(
                        old(source).remaining(),
                    ).unwrap()
                    &&& n == Self::decode_spec(old(source).remaining()).unwrap().len()
                },
                Err(e) => {
                    &&& Self::decode_spec(old(source).remaining()) is None
                    &&& final(dest)@ == old(dest)@
                    &&& e is Codec
                },
            },
    ;

    /// Decodes every byte remaining in `reader` and reconstructs a value of
    /// type `V` from the decoded bytes. A malformed compressed envelope is a
    /// codec error; decoded bytes that do not form a valid `V` are a value
    /// error, so the caller can tell which layer is at fault.
    fn from_reader<V: Decompress>(&self, reader: &mut ByteReader) -> (r: Result<V, ComdeError>)
        requires
            old(reader).wf(),
        ensures
            final(reader).wf(),
            final(reader).data() == old(reader).data(),
            final(reader).remaining().len() == 0,
            match r {
                Ok(v) => {
                    &&& Self::decode_spec(old(reader).remaining()) is Some
                    &&& V::accepts(Self::decode_spec(old(reader).remaining()).unwrap())
                    &&& v.is_of_bytes(Self::decode_spec(old(reader).remaining()).unwrap())
                },
                Err(e) => match Self::decode_spec(old(reader).remaining()) {
                    Option::None => e is Codec,
                    Option::Some(decoded) => !V::accepts(decoded) && e is InvalidValue,
                },
            },
    ;
}

/// A compressor and a decompressor belong to the same codec when they agree
/// on what every compressed sequence decodes to.
pub open spec fn matched_pair<C: Compressor, D: Decompressor>() -> bool {
    forall|b: Seq<u8>| C::decode_spec(b) == D::decode_spec(b)
}

/// Round trip: compressing a byte sequence and decompressing the result with
/// the matching decompressor yields exactly the original sequence, for every
/// input, the empty sequence included.
pub fn roundtrip_bytes<C: Compressor, D: Decompressor>(
    comp: &C,
    decomp: &D,
    input: &Vec<u8>,
) -> (r: Vec<u8>)
    requires
        matched_pair::<C, D>(),
    ensures
        r@ == input@,
{
    let mut reader = ByteReader::new(clone_bytes(input));
    let mut writer = ByteWriter::new();
    let _count = comp.compress(&mut writer, &mut reader);
    let compressed = writer.into_inner();
    proof {
        assert(compressed@ =~= C::encode_spec(input@));
    }
    let mut reader2 = ByteReader::new(compressed);
    let mut writer2 = ByteWriter::new();
    let _written = decomp.copy(&mut reader2, &mut writer2);
    let out = writer2.into_inner();
    proof {
        assert(out@ =~= input@);
    }
    out
}

/// An element-by-element copy of a byte vector.
pub fn clone_bytes(v: &Vec<u8>) -> (r: Vec<u8>)
    ensures
        r@ == v@,
{
    let mut out: Vec<u8> = Vec::new();
    let mut i: usize = 0;
    while i < v.len()
        invariant
            i <= v@.len(),
            out@ == v@.subrange(0, i as int),
        decreases v@.len() - i,
    {
        out.push(v[i]);
        i = i + 1;
        proof {
            assert(out@ =~= v@.subrange(0, i as int));
        }
    }
    proof {
        assert(out@ =~= v@);
    }
    out
}

} // verus!
