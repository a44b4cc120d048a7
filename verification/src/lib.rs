//! A self-describing, tag-discriminated, sentinel-terminated binary encoding
//! for DOM-tree patch operations and UI events, with a symmetric
//! encoder/decoder pair whose round-trip fidelity is proved.

use vstd::prelude::*;

pub mod client;
pub mod domstr;
pub mod element;
pub mod error;
pub mod laws;
pub mod model;
pub mod patch;
pub mod reader;
pub mod wire;
pub mod writer;

verus! {

/// Wire code of the message-type byte that opens a patch stream.
pub const MESSAGE_TYPE_PATCH: u8 = 0x00;

} // verus!
