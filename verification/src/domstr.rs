//! String bodies of the wire format, held as their UTF-8 bytes.
//!
//! The wire format frames a string as a 32-bit big-endian byte length
//! followed by the raw UTF-8 bytes, so the codec works on the bytes
//! themselves; validity is checked once, at construction and at decoding.

use vstd::prelude::*;

use crate::error::DecodeError;

verus! {

/// Whether `core::str::from_utf8` accepts a byte sequence, that is, whether
/// the bytes are valid UTF-8.
pub uninterp spec fn is_utf8(bytes: Seq<u8>) -> bool;

/// Relies on core::str::from_utf8: whether it accepts a byte sequence
/// depends on the bytes alone.
#[verifier::external_body]
fn utf8_check(bytes: &Vec<u8>) -> (r: bool)
    ensures
        r == is_utf8(bytes@),
{
    core::str::from_utf8(bytes.as_slice()).is_ok()
}

/// What it takes for a byte sequence to serve as a string body: the bytes
/// are valid UTF-8 and their count fits the 32-bit length prefix.
pub open spec fn wf_string(s: Seq<u8>) -> bool {
    is_utf8(s) && s.len() <= 0xFFFF_FFFF
}

/// A string body of the wire format: a sequence of bytes that is valid UTF-8
/// and short enough for the 32-bit length prefix. Every value of this type
/// satisfies [`wf_string`]; construction checks it.
#[derive(Debug, PartialEq, Eq)]
pub struct DomString {
    bytes: Vec<u8>,
}

impl View for DomString {
    type V = Seq<u8>;

    closed spec fn view(&self) -> Seq<u8> {
        self.bytes@
    }
}

impl DomString {
    /// Every string body carries valid UTF-8 that fits the length prefix.
    #[verifier::type_invariant]
    spec fn inv(self) -> bool {
        wf_string(self.bytes@)
    }

    /// Validates a byte sequence as a string body. Returns `None` when the
    /// bytes are not valid UTF-8 or do not fit the 32-bit length prefix.
    pub fn from_bytes(bytes: Vec<u8>) -> (r: Option<DomString>)
        ensures
            match r {
                Some(s) => s@ == bytes@ && wf_string(bytes@),
                None => !wf_string(bytes@),
            },
            wf_string(bytes@) ==> r is Some,
    {
        if bytes.len() as u64 <= 0xFFFF_FFFFu64 && utf8_check(&bytes) {
            Some(DomString { bytes })
        } else {
            None
        }
    }

    /// The raw UTF-8 bytes of the string.
    pub fn as_bytes(&self) -> (r: &Vec<u8>)
        ensures
            r@ == self@,
            wf_string(self@),
    {
        proof {
            use_type_invariant(self);
        }
        &self.bytes
    }

    /// The byte length of the string.
    pub fn byte_len(&self) -> (r: usize)
        ensures
            r == self@.len(),
            wf_string(self@),
    {
        proof {
            use_type_invariant(self);
        }
        self.bytes.len()
    }
}

/// A string body that fails UTF-8 validation is rejected with
/// [`DecodeError::InvalidUtf8`], never accepted or replaced by a default.
pub(crate) fn checked_string(bytes: Vec<u8>) -> (r: Result<DomString, DecodeError>)
    requires
        bytes@.len() <= 0xFFFF_FFFF,
    ensures
        match r {
            Ok(s) => s@ == bytes@ && is_utf8(bytes@),
            Err(e) => e == DecodeError::InvalidUtf8 && !is_utf8(bytes@),
        },
{
    if utf8_check(&bytes) {
        Ok(DomString { bytes })
    } else {
        Err(DecodeError::InvalidUtf8)
    }
}

} // verus!
