//! Decode failures. Per-record failures are recoverable: the stream reader
//! yields them as failed slots and goes on with the next record boundary.
use vstd::prelude::*;

verus! {

/// Which sub-structure of a security descriptor a detail refers to.
#[derive(Clone, Copy, Debug, PartialEq, Eq)]
pub enum SdField {
    Owner,
    Group,
    Dacl,
    Sacl,
}

/// What went wrong inside one security descriptor blob.
#[derive(Clone, Copy, Debug, PartialEq, Eq)]
pub enum SdDetail {
    /// The blob is shorter than the fixed twenty-byte header.
    TruncatedHeader,
    /// The field's offset is zero where a structure is mandatory, or it
    /// points at or past the end of the blob.
    OutOfBounds { field: SdField },
    /// The owner or group identifier at the referenced offset is malformed.
    MalformedFieldSid { field: SdField },
    /// The list at the referenced offset is malformed; `index` is the entry
    /// at which its decode failed.
    MalformedFieldAcl { field: SdField, index: u16 },
}

/// Error produced by the decoders. Every variant names the structure whose
/// decode failed; none of them ends iteration over the stream.
#[derive(Clone, Copy, Debug, PartialEq, Eq)]
pub enum DecodeError {
    /// A security identifier's declared sub-authority count reads past the
    /// available bytes.
    MalformedSid,
    /// An access control entry's declared size is under four bytes, exceeds
    /// the available bytes, or its typed body does not fit.
    MalformedAce,
    /// An access control list whose entry at `index` failed to decode.
    MalformedAcl { index: u16 },
    /// A security descriptor blob that could not be decoded.
    MalformedSecurityDescriptor { detail: SdDetail },
}

} // verus!
