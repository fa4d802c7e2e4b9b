use vstd::prelude::*;

verus! {

/// Counts of bytes consumed from the uncompressed source and bytes produced
/// into the compressed destination during one compression pass.
#[derive(Debug, Clone, Copy, PartialEq, Eq, Structural)]
pub struct ByteCount {
    pub read: u64,
    pub write: u64,
}

/// Errors surfaced by compression, decompression and map building.
///
/// A `Codec` error means the byte envelope itself was rejected (malformed or
/// truncated compressed data, or an encoder failure); an `InvalidValue` error
/// means the codec succeeded but the decoded bytes do not satisfy the target
/// value type's construction contract (for example, text that is not UTF-8).
#[derive(Debug)]
pub enum ComdeError {
    Codec(String),
    InvalidValue(String),
}

impl ComdeError {
    /// True for errors of the compressed envelope itself.
    pub fn is_codec(&self) -> (r: bool)
        ensures
            r == (self is Codec),
    {
        match self {
            ComdeError::Codec(_) => true,
            ComdeError::InvalidValue(_) => false,
        }
    }
}

} // verus!
