//! The decode-failure taxonomy shared by the blob decoder, the embedded
//! pet-document decoder, and the normalizer.

use vstd::prelude::*;

verus! {

/// Why decoding a listing's item payload (or one of its sub-documents) failed.
///
/// No variant is ever fatal to a whole ingestion batch: callers report the
/// failure with the listing's identifier and skip only the affected part.
#[derive(Clone, Copy, Debug, PartialEq, Eq, Structural)]
pub enum DecodeError {
    /// The blob's base64 text or its compressed stream is corrupt.
    Encoding,
    /// The decoded tag tree does not match the expected item-list shape.
    Malformed,
    /// The wrapper list holds zero item entries.
    EmptyPayload,
    /// A numeric field lies outside its declared domain.
    OutOfRange,
    /// The embedded pet document (a JSON text held in one string field)
    /// failed to decode.
    EmbeddedDocument,
}

impl DecodeError {
    /// A short, stable description for operator-facing reports.
    pub fn describe(&self) -> (r: &'static str)
        ensures
            r@ == self.spec_describe(),
    {
        match self {
            DecodeError::Encoding => "corrupt base64 or compressed stream",
            DecodeError::Malformed => "tag tree does not match the expected shape",
            DecodeError::EmptyPayload => "item wrapper list is empty",
            DecodeError::OutOfRange => "numeric field outside its domain",
            DecodeError::EmbeddedDocument => "embedded pet document failed to decode",
        }
    }

    /// The description each variant maps to.
    pub open spec fn spec_describe(&self) -> Seq<char> {
        match self {
            DecodeError::Encoding => "corrupt base64 or compressed stream"@,
            DecodeError::Malformed => "tag tree does not match the expected shape"@,
            DecodeError::EmptyPayload => "item wrapper list is empty"@,
            DecodeError::OutOfRange => "numeric field outside its domain"@,
            DecodeError::EmbeddedDocument => "embedded pet document failed to decode"@,
        }
    }
}

} // verus!
