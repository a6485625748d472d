use vstd::prelude::*;

verus! {

/// Everything that can go wrong while decoding a tree, reading a region
/// container, or navigating a decoded tree through the accessor layer.
///
/// Decoding either fully succeeds with a complete tree or fails atomically
/// with exactly one of these.
#[derive(Debug, PartialEq, Eq)]
pub enum Error {
    /// The underlying byte source ended in the middle of a field, or a
    /// length prefix reaches past the end of the source.
    UnexpectedEof,
    /// A string field held bytes that are not valid UTF-8.
    BadEncoding,
    /// A type id outside the recognized set, carrying the offending byte.
    UnexpectedTag(u8),
    /// A region chunk whose compression code is not the single supported
    /// scheme, carrying the offending code.
    UnsupportedCompressionFormat { compression_type: u8 },
    /// A compressed region chunk payload that the decompressor rejected.
    BadCompressedData,
    /// An accessor asked a value for a shape it does not have.
    TypeMismatch,
    /// A compound lookup did not find the requested key.
    MissingKey(String),
    /// A list lookup was past the end, carrying the requested index.
    InvalidIndex(usize),
    /// A region coordinate outside `[0, 32)`.
    OutOfBounds { x: u8, z: u8 },
    /// A chunk slot whose stored offset is zero, meaning the chunk is absent.
    AbsentChunk { x: u8, z: u8 },
}

/// Mathematical image of an [`Error`]: the same variants with the key as a
/// sequence of characters, so contracts can speak of errors by value.
pub enum ErrorV {
    UnexpectedEof,
    BadEncoding,
    UnexpectedTag(u8),
    UnsupportedCompressionFormat { compression_type: u8 },
    BadCompressedData,
    TypeMismatch,
    MissingKey(Seq<char>),
    InvalidIndex(usize),
    OutOfBounds { x: u8, z: u8 },
    AbsentChunk { x: u8, z: u8 },
}

impl DeepView for Error {
    type V = ErrorV;

    open spec fn deep_view(&self) -> ErrorV {
        match self {
            Error::UnexpectedEof => ErrorV::UnexpectedEof,
            Error::BadEncoding => ErrorV::BadEncoding,
            Error::UnexpectedTag(b) => ErrorV::UnexpectedTag(*b),
            Error::UnsupportedCompressionFormat { compression_type } => {
                ErrorV::UnsupportedCompressionFormat { compression_type: *compression_type }
            },
            Error::BadCompressedData => ErrorV::BadCompressedData,
            Error::TypeMismatch => ErrorV::TypeMismatch,
            Error::MissingKey(k) => ErrorV::MissingKey(k@),
            Error::InvalidIndex(i) => ErrorV::InvalidIndex(*i),
            Error::OutOfBounds { x, z } => ErrorV::OutOfBounds { x: *x, z: *z },
            Error::AbsentChunk { x, z } => ErrorV::AbsentChunk { x: *x, z: *z },
        }
    }
}

/// The fixed description of each error kind.
pub open spec fn spec_describe(e: ErrorV) -> Seq<char> {
    match e {
        ErrorV::UnexpectedEof => "unexpected end of input"@,
        ErrorV::BadEncoding => "bad string encoding"@,
        ErrorV::UnexpectedTag(_) => "unexpected tag"@,
        ErrorV::UnsupportedCompressionFormat { .. } => "unsupported compression"@,
        ErrorV::BadCompressedData => "bad compressed data"@,
        ErrorV::TypeMismatch => "type mismatch"@,
        ErrorV::MissingKey(_) => "missing key"@,
        ErrorV::InvalidIndex(_) => "invalid index"@,
        ErrorV::OutOfBounds { .. } => "coordinate out of bounds"@,
        ErrorV::AbsentChunk { .. } => "absent chunk"@,
    }
}

impl Error {
    /// A short fixed description of the error kind, for diagnostics.
    pub fn describe(&self) -> (r: &'static str)
        ensures
            r@ == spec_describe(self.deep_view()),
            r@.len() > 0,
    {
        proof {
            reveal_strlit("unexpected end of input");
            reveal_strlit("bad string encoding");
            reveal_strlit("unexpected tag");
            reveal_strlit("unsupported compression");
            reveal_strlit("bad compressed data");
            reveal_strlit("type mismatch");
            reveal_strlit("missing key");
            reveal_strlit("invalid index");
            reveal_strlit("coordinate out of bounds");
            reveal_strlit("absent chunk");
        }
        match self {
            Error::UnexpectedEof => "unexpected end of input",
            Error::BadEncoding => "bad string encoding",
            Error::UnexpectedTag(_) => "unexpected tag",
            Error::UnsupportedCompressionFormat { .. } => "unsupported compression",
            Error::BadCompressedData => "bad compressed data",
            Error::TypeMismatch => "type mismatch",
            Error::MissingKey(_) => "missing key",
            Error::InvalidIndex(_) => "invalid index",
            Error::OutOfBounds { .. } => "coordinate out of bounds",
            Error::AbsentChunk { .. } => "absent chunk",
        }
    }
}

} // verus!
