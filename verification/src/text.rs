use vstd::prelude::*;

use crate::com::ComdeError;
use crate::stream::{ByteReader, ByteWriter};
use crate::{Compress, Decompress};
use vstd::utf8::{decode_utf8, encode_utf8, valid_utf8};

verus! {

/// Relies on String::from_utf8: it returns the string made of exactly the
/// given bytes when they are valid UTF-8, and an error otherwise.
#[verifier::external_body]
fn string_from_utf8(bytes: Vec<u8>) -> (r: Result<String, ComdeError>)
    ensures
        match r {
            Ok(s) => valid_utf8(bytes@) && encode_utf8(s@) == bytes@,
            Err(e) => !valid_utf8(bytes@) && e is InvalidValue,
        },
{
    match String::from_utf8(bytes) {
        Ok(s) => Ok(s),
        Err(e) => Err(ComdeError::InvalidValue(e.to_string())),
    }
}

impl Compress for String {
    /// A text value serializes as its UTF-8 bytes.
    open spec fn repr(&self) -> Seq<u8> {
        encode_utf8(self@)
    }

    fn to_writer(&self, w: &mut ByteWriter) {
        w.write_all(self.as_str().as_bytes());
    }
}

impl Decompress for String {
    open spec fn accepts(bytes: Seq<u8>) -> bool {
        valid_utf8(bytes)
    }

    open spec fn is_of_bytes(&self, bytes: Seq<u8>) -> bool {
        encode_utf8(self@) == bytes
    }

    fn from_reader(r: &mut ByteReader) -> (res: Result<Self, ComdeError>) {
        let bytes = r.read_to_end();
        string_from_utf8(bytes)
    }
}

/// Value-level round trip for text: a string's serialization is always a
/// valid one, and it reconstructs text with exactly the same characters.
pub proof fn text_repr_roundtrip(s: String)
    ensures
        <String as Decompress>::accepts(s.repr()),
        s.is_of_bytes(s.repr()),
        forall|t: String| t.is_of_bytes(s.repr()) ==> t@ == s@,
{
    broadcast use vstd::utf8::encode_utf8_valid_utf8;
    broadcast use vstd::utf8::encode_utf8_decode_utf8;

    assert forall|t: String| t.is_of_bytes(s.repr()) implies t@ == s@ by {
        assert(decode_utf8(encode_utf8(t@)) == t@);
        assert(decode_utf8(encode_utf8(s@)) == s@);
    }
}

} // verus!
