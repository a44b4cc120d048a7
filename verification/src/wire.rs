//! The wire grammar, stated mathematically.
//!
//! [`enc_msg`] says byte for byte what a message encodes to; [`dec_msg`]
//! says what any byte sequence decodes to, including the exact failure on
//! malformed input. The executable writer and reader are proved against
//! these functions, and the round-trip and truncation laws are proved about
//! them.
//!
//! Decoders return the decoded value together with the count of bytes
//! consumed from the front of the input.

use vstd::prelude::*;

use crate::domstr::is_utf8;
use crate::element::{element_code, element_from_code, ElementName};
use crate::error::{DecodeError, EnumKind};
use crate::model::{AttrG, MessageG, NodeG, PatchG};
use crate::patch::{
    event_code, event_from_code, message_code, message_from_code, node_from_code, patch_code,
    patch_from_code, subscription_code, subscription_from_code, EventSubscription, EventType,
    MessageType, NodeType, PatchType,
};

verus! {

/// The sentinel byte that closes every sentinel-terminated list. It is
/// reserved in every list-terminating tag position and is never a valid
/// enumeration code.
pub const LIST_END: u8 = 255;

/// The eight bytes of an unsigned 64-bit integer, big-endian.
pub open spec fn enc_u64(v: u64) -> Seq<u8> {
    seq![
        ((v >> 56) & 0xFF) as u8,
        ((v >> 48) & 0xFF) as u8,
        ((v >> 40) & 0xFF) as u8,
        ((v >> 32) & 0xFF) as u8,
        ((v >> 24) & 0xFF) as u8,
        ((v >> 16) & 0xFF) as u8,
        ((v >> 8) & 0xFF) as u8,
        (v & 0xFF) as u8,
    ]
}

/// The four bytes of an unsigned 32-bit integer, big-endian.
pub open spec fn enc_u32(v: u32) -> Seq<u8> {
    seq![
        ((v >> 24) & 0xFF) as u8,
        ((v >> 16) & 0xFF) as u8,
        ((v >> 8) & 0xFF) as u8,
        (v & 0xFF) as u8,
    ]
}

/// A string frame: the 32-bit big-endian byte length, then the bytes.
pub open spec fn enc_str(s: Seq<u8>) -> Seq<u8>
    recommends
        s.len() <= 0xFFFF_FFFF,
{
    enc_u32(s.len() as u32) + s
}

/// An attribute record: a tag byte, then the variant's fields.
pub open spec fn enc_attr(a: AttrG) -> Seq<u8> {
    match a {
        AttrG::Class(s) => seq![0u8] + enc_str(s),
        AttrG::Style(k, v) => seq![1u8] + enc_str(k) + enc_str(v),
        AttrG::Event(t, u) => seq![2u8, event_code(t), subscription_code(u)],
    }
}

/// An attribute list: each attribute in order, closed by the sentinel.
pub open spec fn enc_attrs(attrs: Seq<AttrG>) -> Seq<u8>
    decreases attrs.len(),
{
    if attrs.len() == 0 {
        seq![LIST_END]
    } else {
        enc_attr(attrs[0]) + enc_attrs(attrs.drop_first())
    }
}

/// A node: its type tag, then the header and the nested lists of an
/// element, or the id and string body of a text node.
pub open spec fn enc_node(n: NodeG) -> Seq<u8>
    decreases n,
{
    match n {
        NodeG::Element { id, name, attrs, children } => seq![0u8] + enc_u64(id) + seq![
            element_code(name),
        ] + enc_attrs(attrs) + enc_nodes(children),
        NodeG::Text { id, text } => seq![1u8] + enc_u64(id) + enc_str(text),
    }
}

/// A node list: each node in order, closed by the sentinel.
pub open spec fn enc_nodes(nodes: Seq<NodeG>) -> Seq<u8>
    decreases nodes,
{
    if nodes.len() == 0 {
        seq![LIST_END]
    } else {
        enc_node(nodes[0]) + enc_nodes(nodes.drop_first())
    }
}

/// The kind of a patch, as carried in its tag byte.
pub open spec fn patch_kind(p: PatchG) -> PatchType {
    match p {
        PatchG::Replace(_, _) => PatchType::Replace,
        PatchG::ModifyAttrs(_, _) => PatchType::ModifyAttrs,
        PatchG::Remove(_, _) => PatchType::Remove,
        PatchG::Append(_, _) => PatchType::Append,
        PatchG::AppendMultiple(_, _) => PatchType::AppendMultiple,
    }
}

/// The target node id of a patch.
pub open spec fn patch_target(p: PatchG) -> u64 {
    match p {
        PatchG::Replace(id, _) => id,
        PatchG::ModifyAttrs(id, _) => id,
        PatchG::Remove(id, _) => id,
        PatchG::Append(id, _) => id,
        PatchG::AppendMultiple(id, _) => id,
    }
}

/// A patch record: tag byte and target id, then the attribute list of a
/// `ModifyAttrs` patch or the node list of every other kind.
pub open spec fn enc_patch(p: PatchG) -> Seq<u8> {
    seq![patch_code(patch_kind(p))] + enc_u64(patch_target(p)) + (match p {
        PatchG::Replace(_, nodes) => enc_nodes(nodes),
        PatchG::ModifyAttrs(_, attrs) => enc_attrs(attrs),
        PatchG::Remove(_, nodes) => enc_nodes(nodes),
        PatchG::Append(_, nodes) => enc_nodes(nodes),
        PatchG::AppendMultiple(_, nodes) => enc_nodes(nodes),
    })
}

/// A patch list: each patch in order, closed by the sentinel.
pub open spec fn enc_patches(patches: Seq<PatchG>) -> Seq<u8>
    decreases patches.len(),
{
    if patches.len() == 0 {
        seq![LIST_END]
    } else {
        enc_patch(patches[0]) + enc_patches(patches.drop_first())
    }
}

/// The ids of an event, each as eight big-endian bytes, without a prefix.
pub open spec fn enc_ids(ids: Seq<u64>) -> Seq<u8>
    decreases ids.len(),
{
    if ids.len() == 0 {
        Seq::empty()
    } else {
        enc_u64(ids[0]) + enc_ids(ids.drop_first())
    }
}

/// An event: type and subscription bytes, then the count-prefixed id list.
pub open spec fn enc_event(t: EventType, u: EventSubscription, ids: Seq<u64>) -> Seq<u8>
    recommends
        ids.len() <= 0xFFFF_FFFF,
{
    seq![event_code(t), subscription_code(u)] + enc_u32(ids.len() as u32) + enc_ids(ids)
}

/// A whole message: the message-type byte, then the payload its grammar
/// calls for.
pub open spec fn enc_msg(m: MessageG) -> Seq<u8> {
    match m {
        MessageG::Patch(patches) => seq![message_code(MessageType::Patch)] + enc_patches(patches),
        MessageG::Event(t, u, ids) => seq![message_code(MessageType::Event)] + enc_event(
            t,
            u,
            ids,
        ),
        MessageG::EventAck => seq![message_code(MessageType::EventAck)],
    }
}

/// One byte from the front of the input.
pub open spec fn dec_u8(s: Seq<u8>) -> Result<(u8, int), DecodeError> {
    if s.len() < 1 {
        Err(DecodeError::TruncatedStream)
    } else {
        Ok((s[0], 1))
    }
}

/// The unsigned 64-bit integer read big-endian from eight bytes.
#[verifier::opaque]
pub open spec fn u64_from_be(s: Seq<u8>) -> u64
    recommends
        s.len() == 8,
{
    ((s[0] as u64) << 56) | ((s[1] as u64) << 48) | ((s[2] as u64) << 40) | ((s[3] as u64) << 32)
        | ((s[4] as u64) << 24) | ((s[5] as u64) << 16) | ((s[6] as u64) << 8) | (s[7] as u64)
}

/// The unsigned 32-bit integer read big-endian from four bytes.
#[verifier::opaque]
pub open spec fn u32_from_be(s: Seq<u8>) -> u32
    recommends
        s.len() == 4,
{
    ((s[0] as u32) << 24) | ((s[1] as u32) << 16) | ((s[2] as u32) << 8) | (s[3] as u32)
}

/// An unsigned 64-bit integer from the front of the input.
pub open spec fn dec_u64(s: Seq<u8>) -> Result<(u64, int), DecodeError> {
    if s.len() < 8 {
        Err(DecodeError::TruncatedStream)
    } else {
        Ok((u64_from_be(s.take(8)), 8))
    }
}

/// An unsigned 32-bit integer from the front of the input.
pub open spec fn dec_u32(s: Seq<u8>) -> Result<(u32, int), DecodeError> {
    if s.len() < 4 {
        Err(DecodeError::TruncatedStream)
    } else {
        Ok((u32_from_be(s.take(4)), 4))
    }
}

/// A string frame from the front of the input. The declared length must be
/// available in full, and the bytes must be valid UTF-8.
pub open spec fn dec_str(s: Seq<u8>) -> Result<(Seq<u8>, int), DecodeError> {
    match dec_u32(s) {
        Err(e) => Err(e),
        Ok((n, _)) => if s.len() - 4 < n as int {
            Err(DecodeError::TruncatedStream)
        } else {
            let body = s.subrange(4, 4 + n as int);
            if is_utf8(body) {
                Ok((body, 4 + n as int))
            } else {
                Err(DecodeError::InvalidUtf8)
            }
        },
    }
}

/// A message-type byte from the front of the input.
pub open spec fn dec_message_type(s: Seq<u8>) -> Result<(MessageType, int), DecodeError> {
    match dec_u8(s) {
        Err(e) => Err(e),
        Ok((b, _)) => match message_from_code(b) {
            Some(t) => Ok((t, 1)),
            None => Err(DecodeError::InvalidDiscriminant(b, EnumKind::Message)),
        },
    }
}

/// An element-name code from the front of the input.
pub open spec fn dec_element_name(s: Seq<u8>) -> Result<(ElementName, int), DecodeError> {
    match dec_u8(s) {
        Err(e) => Err(e),
        Ok((b, _)) => match element_from_code(b) {
            Some(n) => Ok((n, 1)),
            None => Err(DecodeError::InvalidDiscriminant(b, EnumKind::Element)),
        },
    }
}

/// An event-type byte from the front of the input.
pub open spec fn dec_event_type(s: Seq<u8>) -> Result<(EventType, int), DecodeError> {
    match dec_u8(s) {
        Err(e) => Err(e),
        Ok((b, _)) => match event_from_code(b) {
            Some(t) => Ok((t, 1)),
            None => Err(DecodeError::InvalidDiscriminant(b, EnumKind::Event)),
        },
    }
}

/// An event-subscription byte from the front of the input.
pub open spec fn dec_subscription(s: Seq<u8>) -> Result<(EventSubscription, int), DecodeError> {
    match dec_u8(s) {
        Err(e) => Err(e),
        Ok((b, _)) => match subscription_from_code(b) {
            Some(u) => Ok((u, 1)),
            None => Err(DecodeError::InvalidDiscriminant(b, EnumKind::Subscription)),
        },
    }
}

/// A node-type tag, or the sentinel that closes a node list.
pub open spec fn dec_node_type(s: Seq<u8>) -> Result<(Option<NodeType>, int), DecodeError> {
    match dec_u8(s) {
        Err(e) => Err(e),
        Ok((b, _)) => if b == LIST_END {
            Ok((None, 1))
        } else {
            match node_from_code(b) {
                Some(t) => Ok((Some(t), 1)),
                None => Err(DecodeError::InvalidDiscriminant(b, EnumKind::Node)),
            }
        },
    }
}

/// An element header after its node-type tag: the id, then the name code.
pub open spec fn dec_el(s: Seq<u8>) -> Result<((u64, ElementName), int), DecodeError> {
    match dec_u64(s) {
        Err(e) => Err(e),
        Ok((id, _)) => match dec_element_name(s.skip(8)) {
            Err(e) => Err(e),
            Ok((name, _)) => Ok(((id, name), 9)),
        },
    }
}

/// A text node after its node-type tag: the id, then the string body.
pub open spec fn dec_text(s: Seq<u8>) -> Result<((u64, Seq<u8>), int), DecodeError> {
    match dec_u64(s) {
        Err(e) => Err(e),
        Ok((id, _)) => match dec_str(s.skip(8)) {
            Err(e) => Err(e),
            Ok((body, k)) => Ok(((id, body), 8 + k)),
        },
    }
}

/// A count-prefixed id list: a 32-bit count, then that many ids.
pub open spec fn dec_id_list(s: Seq<u8>) -> Result<(Seq<u64>, int), DecodeError> {
    match dec_u32(s) {
        Err(e) => Err(e),
        Ok((n, _)) => match dec_ids(s.skip(4), n as int) {
            Err(e) => Err(e),
            Ok((ids, k)) => Ok((ids, 4 + k)),
        },
    }
}

/// One entry of an attribute list: `None` when the sentinel closed the
/// list, `Some` with the attribute otherwise.
pub open spec fn dec_attr(s: Seq<u8>) -> Result<(Option<AttrG>, int), DecodeError> {
    match dec_u8(s) {
        Err(e) => Err(e),
        Ok((tag, _)) => if tag == LIST_END {
            Ok((None, 1))
        } else if tag == 0 {
            match dec_str(s.skip(1)) {
                Err(e) => Err(e),
                Ok((body, k)) => Ok((Some(AttrG::Class(body)), 1 + k)),
            }
        } else if tag == 1 {
            match dec_str(s.skip(1)) {
                Err(e) => Err(e),
                Ok((key, k1)) => match dec_str(s.skip(1 + k1)) {
                    Err(e) => Err(e),
                    Ok((val, k2)) => Ok((Some(AttrG::Style(key, val)), 1 + k1 + k2)),
                },
            }
        } else if tag == 2 {
            match dec_event_type(s.skip(1)) {
                Err(e) => Err(e),
                Ok((t, _)) => match dec_subscription(s.skip(2)) {
                    Err(e) => Err(e),
                    Ok((u, _)) => Ok((Some(AttrG::Event(t, u)), 3)),
                },
            }
        } else {
            Err(DecodeError::InvalidDiscriminant(tag, EnumKind::Attribute))
        },
    }
}

/// An attribute list: entries until the sentinel.
///
/// The bound on the entry's consumed count always holds (a successful entry
/// consumes at least one byte and never more than the input); checking it
/// here bounds the recursion.
pub open spec fn dec_attrs(s: Seq<u8>) -> Result<(Seq<AttrG>, int), DecodeError>
    decreases s.len(),
{
    match dec_attr(s) {
        Err(e) => Err(e),
        Ok((None, k)) => Ok((Seq::empty(), k)),
        Ok((Some(a), k)) => if 1 <= k && k <= s.len() {
            match dec_attrs(s.skip(k)) {
                Err(e) => Err(e),
                Ok((rest, k2)) => Ok((seq![a] + rest, k + k2)),
            }
        } else {
            Err(DecodeError::TruncatedStream)
        },
    }
}

/// One entry of a node list: `None` when the sentinel closed the list,
/// `Some` with the decoded subtree otherwise.
pub open spec fn dec_node_entry(s: Seq<u8>) -> Result<(Option<NodeG>, int), DecodeError>
    decreases s.len(), 0int,
{
    match dec_u8(s) {
        Err(e) => Err(e),
        Ok((tag, _)) => if tag == LIST_END {
            Ok((None, 1))
        } else if tag == 0 {
            match dec_u64(s.skip(1)) {
                Err(e) => Err(e),
                Ok((id, _)) => match dec_element_name(s.skip(9)) {
                    Err(e) => Err(e),
                    Ok((name, _)) => match dec_attrs(s.skip(10)) {
                        Err(e) => Err(e),
                        Ok((attrs, ka)) => if 0 <= ka && 10 + ka <= s.len() {
                            match dec_nodes(s.skip(10 + ka)) {
                                Err(e) => Err(e),
                                Ok((children, kc)) => Ok(
                                    (Some(NodeG::Element { id, name, attrs, children }), 10 + ka + kc),
                                ),
                            }
                        } else {
                            Err(DecodeError::TruncatedStream)
                        },
                    },
                },
            }
        } else if tag == 1 {
            match dec_u64(s.skip(1)) {
                Err(e) => Err(e),
                Ok((id, _)) => match dec_str(s.skip(9)) {
                    Err(e) => Err(e),
                    Ok((text, ks)) => Ok((Some(NodeG::Text { id, text }), 9 + ks)),
                },
            }
        } else {
            Err(DecodeError::InvalidDiscriminant(tag, EnumKind::Node))
        },
    }
}

/// A node list: entries until the sentinel.
///
/// As in [`dec_attrs`], the bound checked on the entry's consumed count
/// always holds and only bounds the recursion.
pub open spec fn dec_nodes(s: Seq<u8>) -> Result<(Seq<NodeG>, int), DecodeError>
    decreases s.len(), 1int,
{
    match dec_node_entry(s) {
        Err(e) => Err(e),
        Ok((None, k)) => Ok((Seq::empty(), k)),
        Ok((Some(n), k)) => if 1 <= k && k <= s.len() {
            match dec_nodes(s.skip(k)) {
                Err(e) => Err(e),
                Ok((rest, k2)) => Ok((seq![n] + rest, k + k2)),
            }
        } else {
            Err(DecodeError::TruncatedStream)
        },
    }
}

/// One patch header: `None` when the sentinel closed the patch list,
/// `Some` with the patch type and target id otherwise.
pub open spec fn dec_patch_header(s: Seq<u8>) -> Result<
    (Option<(PatchType, u64)>, int),
    DecodeError,
> {
    match dec_u8(s) {
        Err(e) => Err(e),
        Ok((tag, _)) => if tag == LIST_END {
            Ok((None, 1))
        } else {
            match patch_from_code(tag) {
                None => Err(DecodeError::InvalidDiscriminant(tag, EnumKind::Patch)),
                Some(ty) => match dec_u64(s.skip(1)) {
                    Err(e) => Err(e),
                    Ok((id, _)) => Ok((Some((ty, id)), 9)),
                },
            }
        },
    }
}

/// One entry of a patch list: the header, then the attribute list of a
/// `ModifyAttrs` patch or the node list of every other kind.
pub open spec fn dec_patch_entry(s: Seq<u8>) -> Result<(Option<PatchG>, int), DecodeError> {
    match dec_patch_header(s) {
        Err(e) => Err(e),
        Ok((None, k)) => Ok((None, k)),
        Ok((Some((ty, id)), _)) => match ty {
            PatchType::ModifyAttrs => match dec_attrs(s.skip(9)) {
                Err(e) => Err(e),
                Ok((attrs, ka)) => Ok((Some(PatchG::ModifyAttrs(id, attrs)), 9 + ka)),
            },
            PatchType::Replace => match dec_nodes(s.skip(9)) {
                Err(e) => Err(e),
                Ok((nodes, kn)) => Ok((Some(PatchG::Replace(id, nodes)), 9 + kn)),
            },
            PatchType::Remove => match dec_nodes(s.skip(9)) {
                Err(e) => Err(e),
                Ok((nodes, kn)) => Ok((Some(PatchG::Remove(id, nodes)), 9 + kn)),
            },
            PatchType::Append => match dec_nodes(s.skip(9)) {
                Err(e) => Err(e),
                Ok((nodes, kn)) => Ok((Some(PatchG::Append(id, nodes)), 9 + kn)),
            },
            PatchType::AppendMultiple => match dec_nodes(s.skip(9)) {
                Err(e) => Err(e),
                Ok((nodes, kn)) => Ok((Some(PatchG::AppendMultiple(id, nodes)), 9 + kn)),
            },
        },
    }
}

/// A patch list: entries until the sentinel.
///
/// As in [`dec_attrs`], the bound checked on the entry's consumed count
/// always holds and only bounds the recursion.
pub open spec fn dec_patches(s: Seq<u8>) -> Result<(Seq<PatchG>, int), DecodeError>
    decreases s.len(),
{
    match dec_patch_entry(s) {
        Err(e) => Err(e),
        Ok((None, k)) => Ok((Seq::empty(), k)),
        Ok((Some(p), k)) => if 1 <= k && k <= s.len() {
            match dec_patches(s.skip(k)) {
                Err(e) => Err(e),
                Ok((rest, k2)) => Ok((seq![p] + rest, k + k2)),
            }
        } else {
            Err(DecodeError::TruncatedStream)
        },
    }
}

/// Exactly `n` eight-byte ids from the front of the input.
pub open spec fn dec_ids(s: Seq<u8>, n: int) -> Result<(Seq<u64>, int), DecodeError>
    decreases n,
{
    if n <= 0 {
        Ok((Seq::empty(), 0))
    } else {
        match dec_u64(s) {
            Err(e) => Err(e),
            Ok((id, _)) => match dec_ids(s.skip(8), n - 1) {
                Err(e) => Err(e),
                Ok((rest, k)) => Ok((seq![id] + rest, 8 + k)),
            },
        }
    }
}

/// An event: type and subscription bytes, then the count-prefixed id list.
pub open spec fn dec_event(s: Seq<u8>) -> Result<
    ((EventType, EventSubscription, Seq<u64>), int),
    DecodeError,
> {
    match dec_event_type(s) {
        Err(e) => Err(e),
        Ok((t, _)) => match dec_subscription(s.skip(1)) {
            Err(e) => Err(e),
            Ok((u, _)) => match dec_u32(s.skip(2)) {
                Err(e) => Err(e),
                Ok((n, _)) => match dec_ids(s.skip(6), n as int) {
                    Err(e) => Err(e),
                    Ok((ids, k)) => Ok(((t, u, ids), 6 + k)),
                },
            },
        },
    }
}

/// A whole message: the message-type byte, then the payload its grammar
/// calls for.
pub open spec fn dec_msg(s: Seq<u8>) -> Result<(MessageG, int), DecodeError> {
    match dec_message_type(s) {
        Err(e) => Err(e),
        Ok((MessageType::Patch, _)) => match dec_patches(s.skip(1)) {
            Err(e) => Err(e),
            Ok((patches, k)) => Ok((MessageG::Patch(patches), 1 + k)),
        },
        Ok((MessageType::Event, _)) => match dec_event(s.skip(1)) {
            Err(e) => Err(e),
            Ok(((t, u, ids), k)) => Ok((MessageG::Event(t, u, ids), 1 + k)),
        },
        Ok((MessageType::EventAck, _)) => Ok((MessageG::EventAck, 1)),
    }
}

} // verus!
