//! The structural faults that decoding a sub-attribute buffer can report.

use vstd::prelude::*;

verus! {

/// A structural fault found while decoding a sub-attribute buffer.
///
/// Every fault aborts the decode of the whole buffer; the caller never sees
/// a partially filled parameter set.
#[derive(Debug, Clone, Copy, PartialEq, Eq, Structural)]
pub enum DecodeError {
    /// Fewer than four bytes remain where a record header should start.
    TruncatedHeader,
    /// A record's declared length exceeds the bytes remaining in the input.
    LengthExceedsBuffer,
    /// A record's declared length is zero.
    EmptyRecord,
    /// A record's declared length is smaller than the four-byte header.
    HeaderTooShort,
    /// A record's declared length implies a payload other than four bytes.
    UnexpectedPayloadSize,
    /// A record's kind number names none of the nine parameter fields.
    UnknownAttributeKind,
}

impl DecodeError {
    /// The description that this fault carries.
    pub open spec fn spec_message(self) -> Seq<char> {
        match self {
            DecodeError::TruncatedHeader => "fq_codel: invalid data"@,
            DecodeError::LengthExceedsBuffer => "fq_codel: invalid data"@,
            DecodeError::EmptyRecord => "fq_codel: empty data"@,
            DecodeError::HeaderTooShort => "fq_codel: invalid data"@,
            DecodeError::UnexpectedPayloadSize => "fq_codel: invalid data"@,
            DecodeError::UnknownAttributeKind => "fq_codel: unknown attribute"@,
        }
    }

    /// A short description of the fault.
    pub fn message(&self) -> (m: &'static str)
        ensures
            m@ == self.spec_message(),
    {
        match self {
            DecodeError::TruncatedHeader => "fq_codel: invalid data",
            DecodeError::LengthExceedsBuffer => "fq_codel: invalid data",
            DecodeError::EmptyRecord => "fq_codel: empty data",
            DecodeError::HeaderTooShort => "fq_codel: invalid data",
            DecodeError::UnexpectedPayloadSize => "fq_codel: invalid data",
            DecodeError::UnknownAttributeKind => "fq_codel: unknown attribute",
        }
    }
}

} // verus!
