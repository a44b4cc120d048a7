//! Typed decoding failures.
//!
//! Every malformed input is reported through one of the variants of
//! [`DecodeError`]; a decoder never substitutes a default value and never
//! returns a partial record.

use vstd::prelude::*;

verus! {

/// The enumerations whose one-byte wire tags a decoder validates.
///
/// An [`DecodeError::InvalidDiscriminant`] failure names the enumeration
/// whose tag position held the unrecognized byte.
#[derive(Clone, Copy, Debug, PartialEq, Eq, Structural)]
pub enum EnumKind {
    /// The message-type tag that opens every message.
    Message,
    /// The patch-type tag that opens a patch record.
    Patch,
    /// The node-type tag that opens a node header.
    Node,
    /// The attribute-type tag that opens an attribute record.
    Attribute,
    /// The element-name code inside an element header.
    Element,
    /// The event-type byte of an event or event attribute.
    Event,
    /// The event-subscription byte of an event or event attribute.
    Subscription,
}

/// A decoding failure. All variants are terminal for the current decode call.
#[derive(Clone, Copy, Debug, PartialEq, Eq, Structural)]
pub enum DecodeError {
    /// The input ended before a sentinel or before a declared field's bytes
    /// were available.
    TruncatedStream,
    /// An enumeration tag byte did not map to any variant; carries the byte
    /// and the enumeration it was read for.
    InvalidDiscriminant(u8, EnumKind),
    /// A string field's bytes were present but were not valid UTF-8.
    InvalidUtf8,
}

/// The failure reported when a read consumes fewer bytes than it needs.
pub fn io_error() -> (e: DecodeError)
    ensures
        e == DecodeError::TruncatedStream,
{
    DecodeError::TruncatedStream
}

} // verus!
