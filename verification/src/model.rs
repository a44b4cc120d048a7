//! The message model: nodes, patches and events, together with their ghost
//! deep views.
//!
//! The codec's contracts speak of the ghost mirrors ([`NodeG`], [`PatchG`],
//! [`MessageG`]), which hold mathematical sequences where the executable
//! model holds vectors and string bodies.

use vstd::prelude::*;

use crate::domstr::{wf_string, DomString};
use crate::element::ElementName;
use crate::patch::{AttributeRef, AttributeVal, EventSubscription, EventType};

verus! {

/// Ghost mirror of an [`AttributeVal`]: string bodies become byte sequences.
pub enum AttrG {
    /// A class list.
    Class(Seq<u8>),
    /// A style property: key, then value.
    Style(Seq<u8>, Seq<u8>),
    /// An event listener: type and synchronization.
    Event(EventType, EventSubscription),
}

/// Ghost mirror of a [`NodeVal`].
pub enum NodeG {
    /// An element: id, name, attributes, children.
    Element { id: u64, name: ElementName, attrs: Seq<AttrG>, children: Seq<NodeG> },
    /// A text node: id and string body.
    Text { id: u64, text: Seq<u8> },
}

/// Ghost mirror of a [`PatchVal`].
pub enum PatchG {
    /// Replace the target node with the nodes carried.
    Replace(u64, Seq<NodeG>),
    /// Replace the target node's attributes with the attributes carried.
    ModifyAttrs(u64, Seq<AttrG>),
    /// Remove the target node; carries a node list, left empty by writers.
    Remove(u64, Seq<NodeG>),
    /// Append one subtree under the target node.
    Append(u64, Seq<NodeG>),
    /// Append several subtrees under the target node.
    AppendMultiple(u64, Seq<NodeG>),
}

/// Ghost mirror of a [`Message`].
pub enum MessageG {
    /// An ordered stream of patches.
    Patch(Seq<PatchG>),
    /// An input event: type, synchronization, and the ids it concerns.
    Event(EventType, EventSubscription, Seq<u64>),
    /// An acknowledgement; no payload.
    EventAck,
}

/// A node of the tree being described: a tagged union over element and text.
#[derive(Debug, PartialEq, Eq)]
pub enum NodeVal {
    /// An element with a caller-assigned id, a name, and its ordered
    /// attribute and child lists.
    Element { id: u64, name: ElementName, attrs: Vec<AttributeVal>, children: Vec<NodeVal> },
    /// A text node with a caller-assigned id and a string body.
    Text { id: u64, text: DomString },
}

/// One operation applied to the tree, identified by its target node id.
///
/// Every kind but `ModifyAttrs` carries a node list; `ModifyAttrs` carries
/// an attribute list instead, framed directly after the patch header.
#[derive(Debug, PartialEq, Eq)]
pub enum PatchVal {
    /// Replace the target node with the nodes carried.
    Replace(u64, Vec<NodeVal>),
    /// Replace the target node's attributes with the attributes carried.
    ModifyAttrs(u64, Vec<AttributeVal>),
    /// Remove the target node; carries a node list, left empty by writers.
    Remove(u64, Vec<NodeVal>),
    /// Append one subtree under the target node.
    Append(u64, Vec<NodeVal>),
    /// Append several subtrees under the target node.
    AppendMultiple(u64, Vec<NodeVal>),
}

/// A top-level message: the tag that opens it selects the grammar of
/// everything that follows.
#[derive(Debug, PartialEq, Eq)]
pub enum Message {
    /// An ordered stream of patches, applied in order by the receiver.
    Patch(Vec<PatchVal>),
    /// An input event: type, synchronization, and the ids it concerns.
    Event(EventType, EventSubscription, Vec<u64>),
    /// An acknowledgement; no payload.
    EventAck,
}

impl AttributeVal {
    /// The ghost mirror of this attribute.
    pub open spec fn dv(&self) -> AttrG {
        match self {
            AttributeVal::Class(s) => AttrG::Class(s@),
            AttributeVal::Style(k, v) => AttrG::Style(k@, v@),
            AttributeVal::Event(t, u) => AttrG::Event(*t, *u),
        }
    }
}

impl AttributeRef<'_> {
    /// The ghost mirror of this attribute.
    pub open spec fn dv(&self) -> AttrG {
        match self {
            AttributeRef::Class(s) => AttrG::Class(s@),
            AttributeRef::Style(k, v) => AttrG::Style(k@, v@),
            AttributeRef::Event(t, u) => AttrG::Event(*t, *u),
        }
    }
}

/// The ghost mirrors of a sequence of attributes, in order.
pub open spec fn dv_attrs(attrs: Seq<AttributeVal>) -> Seq<AttrG>
    decreases attrs.len(),
{
    if attrs.len() == 0 {
        Seq::empty()
    } else {
        seq![attrs[0].dv()] + dv_attrs(attrs.drop_first())
    }
}

impl NodeVal {
    /// The ghost mirror of this node.
    pub open spec fn dv(&self) -> NodeG
        decreases self,
    {
        match self {
            NodeVal::Element { id, name, attrs, children } => NodeG::Element {
                id: *id,
                name: *name,
                attrs: dv_attrs(attrs@),
                children: dv_nodes(children@),
            },
            NodeVal::Text { id, text } => NodeG::Text { id: *id, text: text@ },
        }
    }
}

/// The ghost mirrors of a sequence of nodes, in order.
pub open spec fn dv_nodes(nodes: Seq<NodeVal>) -> Seq<NodeG>
    decreases nodes,
{
    if nodes.len() == 0 {
        Seq::empty()
    } else {
        seq![nodes[0].dv()] + dv_nodes(nodes.drop_first())
    }
}

impl PatchVal {
    /// The ghost mirror of this patch.
    pub open spec fn dv(&self) -> PatchG {
        match self {
            PatchVal::Replace(id, nodes) => PatchG::Replace(*id, dv_nodes(nodes@)),
            PatchVal::ModifyAttrs(id, attrs) => PatchG::ModifyAttrs(*id, dv_attrs(attrs@)),
            PatchVal::Remove(id, nodes) => PatchG::Remove(*id, dv_nodes(nodes@)),
            PatchVal::Append(id, nodes) => PatchG::Append(*id, dv_nodes(nodes@)),
            PatchVal::AppendMultiple(id, nodes) => PatchG::AppendMultiple(*id, dv_nodes(nodes@)),
        }
    }
}

/// The ghost mirrors of a sequence of patches, in order.
pub open spec fn dv_patches(patches: Seq<PatchVal>) -> Seq<PatchG>
    decreases patches.len(),
{
    if patches.len() == 0 {
        Seq::empty()
    } else {
        seq![patches[0].dv()] + dv_patches(patches.drop_first())
    }
}

/// A sequence of attributes and its mirror have the same length.
pub proof fn lemma_dv_attrs_len(attrs: Seq<AttributeVal>)
    ensures
        dv_attrs(attrs).len() == attrs.len(),
    decreases attrs.len(),
{
    if attrs.len() > 0 {
        lemma_dv_attrs_len(attrs.drop_first());
    }
}

/// A sequence of nodes and its mirror have the same length.
pub proof fn lemma_dv_nodes_len(nodes: Seq<NodeVal>)
    ensures
        dv_nodes(nodes).len() == nodes.len(),
    decreases nodes.len(),
{
    if nodes.len() > 0 {
        lemma_dv_nodes_len(nodes.drop_first());
    }
}

/// A sequence of patches and its mirror have the same length.
pub proof fn lemma_dv_patches_len(patches: Seq<PatchVal>)
    ensures
        dv_patches(patches).len() == patches.len(),
    decreases patches.len(),
{
    if patches.len() > 0 {
        lemma_dv_patches_len(patches.drop_first());
    }
}

impl Message {
    /// Whether the message fits the wire format's fixed-width prefixes: an
    /// event's id list must fit its 32-bit count. Every other size is
    /// either checked at construction or unbounded on the wire.
    pub open spec fn encodable(&self) -> bool {
        match self {
            Message::Event(_, _, ids) => ids@.len() <= 0xFFFF_FFFF,
            _ => true,
        }
    }

    /// The ghost mirror of this message.
    pub open spec fn dv(&self) -> MessageG {
        match self {
            Message::Patch(patches) => MessageG::Patch(dv_patches(patches@)),
            Message::Event(t, u, ids) => MessageG::Event(*t, *u, ids@),
            Message::EventAck => MessageG::EventAck,
        }
    }
}

impl AttrG {
    /// Every string body carried is a well-formed string.
    pub open spec fn wf(self) -> bool {
        match self {
            AttrG::Class(s) => wf_string(s),
            AttrG::Style(k, v) => wf_string(k) && wf_string(v),
            AttrG::Event(_, _) => true,
        }
    }
}

/// Every attribute in the sequence is well-formed.
pub open spec fn wf_attrs(attrs: Seq<AttrG>) -> bool {
    forall|i: int| 0 <= i < attrs.len() ==> (#[trigger] attrs[i]).wf()
}

impl NodeG {
    /// Every string body in the subtree is a well-formed string.
    pub open spec fn wf(self) -> bool
        decreases self,
    {
        match self {
            NodeG::Element { id: _, name: _, attrs, children } => wf_attrs(attrs)
                && wf_nodes(children),
            NodeG::Text { id: _, text } => wf_string(text),
        }
    }
}

/// Every node in the sequence is well-formed.
pub open spec fn wf_nodes(nodes: Seq<NodeG>) -> bool
    decreases nodes,
{
    if nodes.len() == 0 {
        true
    } else {
        nodes[0].wf() && wf_nodes(nodes.drop_first())
    }
}

impl PatchG {
    /// Every string body carried is well-formed.
    pub open spec fn wf(self) -> bool {
        match self {
            PatchG::Replace(_, nodes) => wf_nodes(nodes),
            PatchG::ModifyAttrs(_, attrs) => wf_attrs(attrs),
            PatchG::Remove(_, nodes) => wf_nodes(nodes),
            PatchG::Append(_, nodes) => wf_nodes(nodes),
            PatchG::AppendMultiple(_, nodes) => wf_nodes(nodes),
        }
    }
}

/// Every patch in the sequence is well-formed.
pub open spec fn wf_patches(patches: Seq<PatchG>) -> bool {
    forall|i: int| 0 <= i < patches.len() ==> (#[trigger] patches[i]).wf()
}

impl MessageG {
    /// Every string body is a well-formed string, and an event's id list
    /// fits its 32-bit count prefix.
    pub open spec fn wf(self) -> bool {
        match self {
            MessageG::Patch(patches) => wf_patches(patches),
            MessageG::Event(_, _, ids) => ids.len() <= 0xFFFF_FFFF,
            MessageG::EventAck => true,
        }
    }
}

} // verus!
