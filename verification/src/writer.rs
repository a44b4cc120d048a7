//! The encoder: writes the wire format into a growable byte buffer.
//!
//! Every write method appends exactly the bytes that the corresponding
//! [`crate::wire`] encoding function describes; [`encode`] produces the
//! complete encoding of a message.

use vstd::prelude::*;

use crate::domstr::DomString;
use crate::element::{element_code, ElementName};
use crate::model::{
    dv_attrs, dv_nodes, dv_patches, lemma_dv_attrs_len, lemma_dv_nodes_len, lemma_dv_patches_len,
    Message, NodeVal, PatchVal,
};
use crate::patch::{
    message_code, node_code, patch_code, AttributeRef, AttributeVal, EventSubscription, EventType,
    MessageType, NodeType, PatchType,
};
use crate::wire::{
    enc_attr, enc_attrs, enc_ids, enc_msg, enc_node, enc_nodes, enc_patch, enc_patches,
    enc_str, enc_u32, enc_u64, LIST_END,
};

verus! {

/// A writer that accumulates one encoded message in memory.
pub struct PatchWriter {
    buf: Vec<u8>,
}

impl View for PatchWriter {
    type V = Seq<u8>;

    closed spec fn view(&self) -> Seq<u8> {
        self.buf@
    }
}

impl PatchWriter {
    /// An empty writer.
    pub fn new() -> (w: PatchWriter)
        ensures
            w@ == Seq::<u8>::empty(),
    {
        let w = PatchWriter { buf: Vec::new() };
        proof {
            assert(w@ =~= Seq::<u8>::empty());
        }
        w
    }

    /// Hands the accumulated bytes to the caller.
    pub fn into_bytes(self) -> (r: Vec<u8>)
        ensures
            r@ == self@,
    {
        self.buf
    }

    /// The count of bytes written so far.
    pub fn len(&self) -> (r: usize)
        ensures
            r == self@.len(),
    {
        self.buf.len()
    }

    /// Appends one byte.
    pub fn write_u8(&mut self, b: u8)
        ensures
            final(self)@ == old(self)@ + seq![b],
    {
        self.buf.push(b);
        proof {
            assert(self.buf@ =~= old(self).buf@ + seq![b]);
        }
    }

    /// Appends an unsigned 64-bit integer, big-endian.
    pub fn write_u64(&mut self, v: u64)
        ensures
            final(self)@ == old(self)@ + enc_u64(v),
    {
        proof {
            assert((v >> 56) & 0xFF < 256 && (v >> 48) & 0xFF < 256 && (v >> 40) & 0xFF < 256 && (v
                >> 32) & 0xFF < 256 && (v >> 24) & 0xFF < 256 && (v >> 16) & 0xFF < 256 && (v >> 8)
                & 0xFF < 256 && v & 0xFF < 256) by (bit_vector);
        }
        self.buf.push(((v >> 56) & 0xFF) as u8);
        self.buf.push(((v >> 48) & 0xFF) as u8);
        self.buf.push(((v >> 40) & 0xFF) as u8);
        self.buf.push(((v >> 32) & 0xFF) as u8);
        self.buf.push(((v >> 24) & 0xFF) as u8);
        self.buf.push(((v >> 16) & 0xFF) as u8);
        self.buf.push(((v >> 8) & 0xFF) as u8);
        self.buf.push((v & 0xFF) as u8);
        proof {
            assert(self.buf@ =~= old(self).buf@ + enc_u64(v));
        }
    }

    /// Appends an unsigned 32-bit integer, big-endian.
    pub fn write_u32(&mut self, v: u32)
        ensures
            final(self)@ == old(self)@ + enc_u32(v),
    {
        proof {
            assert((v >> 24) & 0xFF < 256 && (v >> 16) & 0xFF < 256 && (v >> 8) & 0xFF < 256 && v
                & 0xFF < 256) by (bit_vector);
        }
        self.buf.push(((v >> 24) & 0xFF) as u8);
        self.buf.push(((v >> 16) & 0xFF) as u8);
        self.buf.push(((v >> 8) & 0xFF) as u8);
        self.buf.push((v & 0xFF) as u8);
        proof {
            assert(self.buf@ =~= old(self).buf@ + enc_u32(v));
        }
    }

    /// Writes a message-type tag.
    pub fn write_msg_type(&mut self, ty: MessageType)
        ensures
            final(self)@ == old(self)@ + seq![message_code(ty)],
    {
        let c = ty.code();
        self.write_u8(c);
    }

    /// Writes a patch header: the patch-type tag, then the target node id.
    pub fn write_patch_type(&mut self, ty: PatchType, id: u64)
        ensures
            final(self)@ == old(self)@ + seq![patch_code(ty)] + enc_u64(id),
    {
        let c = ty.code();
        self.write_u8(c);
        self.write_u64(id);
    }

    /// Writes an event-type tag.
    pub fn write_event_type(&mut self, ty: EventType)
        ensures
            final(self)@ == old(self)@ + seq![crate::patch::event_code(ty)],
    {
        let c = ty.code();
        self.write_u8(c);
    }

    /// Writes an event-subscription tag.
    pub fn write_event_sub(&mut self, sub: EventSubscription)
        ensures
            final(self)@ == old(self)@ + seq![crate::patch::subscription_code(sub)],
    {
        let c = sub.code();
        self.write_u8(c);
    }

    /// Writes a node-type tag.
    pub fn write_node_type(&mut self, ty: NodeType)
        ensures
            final(self)@ == old(self)@ + seq![node_code(ty)],
    {
        let c = ty.code();
        self.write_u8(c);
    }

    /// Writes a string frame: the 32-bit byte length, then the bytes.
    pub fn write_dom_str(&mut self, val: &DomString)
        ensures
            final(self)@ == old(self)@ + enc_str(val@),
    {
        let len = val.byte_len();
        self.write_u32(len as u32);
        let ghost mid = self@;
        let bs = val.as_bytes();
        let mut i: usize = 0;
        while i < bs.len()
            invariant
                i <= bs.len(),
                bs@ == val@,
                val@.len() <= 0xFFFF_FFFF,
                self@ == mid + val@.take(i as int),
            decreases bs.len() - i,
        {
            let b = bs[i];
            self.write_u8(b);
            i = i + 1;
            proof {
                assert(self@ =~= mid + val@.take(i as int));
            }
        }
        proof {
            assert(val@.take(val@.len() as int) =~= val@);
            assert(self@ =~= old(self)@ + enc_str(val@));
        }
    }

    /// Writes an element header: the node-type tag, the id, and the
    /// element-name code. The attribute list and the child list follow.
    pub fn write_el(&mut self, id: u64, name: ElementName)
        ensures
            final(self)@ == old(self)@ + seq![0u8] + enc_u64(id) + seq![element_code(name)],
    {
        self.write_node_type(NodeType::Element);
        self.write_u64(id);
        let c = name.code();
        self.write_u8(c);
    }

    /// Writes one attribute record.
    pub fn write_attr(&mut self, attr: AttributeRef<'_>)
        ensures
            final(self)@ == old(self)@ + enc_attr(attr.dv()),
    {
        match attr {
            AttributeRef::Class(val) => {
                self.write_u8(0);
                self.write_dom_str(val);
                proof {
                    assert(self@ =~= old(self)@ + enc_attr(attr.dv()));
                }
            },
            AttributeRef::Style(key, value) => {
                self.write_u8(1);
                self.write_dom_str(key);
                self.write_dom_str(value);
                proof {
                    assert(self@ =~= old(self)@ + enc_attr(attr.dv()));
                }
            },
            AttributeRef::Event(ty, sub) => {
                self.write_u8(2);
                self.write_event_type(ty);
                self.write_event_sub(sub);
                proof {
                    assert(self@ =~= old(self)@ + enc_attr(attr.dv()));
                }
            },
        }
    }

    /// Writes a text node: the node-type tag, the id, and the string body.
    pub fn write_text(&mut self, id: u64, val: &DomString)
        ensures
            final(self)@ == old(self)@ + seq![1u8] + enc_u64(id) + enc_str(val@),
    {
        self.write_node_type(NodeType::Text);
        self.write_u64(id);
        self.write_dom_str(val);
    }

    /// Writes the sentinel that closes a patch, node or attribute list.
    pub fn write_end_list(&mut self)
        ensures
            final(self)@ == old(self)@ + seq![LIST_END],
    {
        self.write_u8(LIST_END);
    }

    /// Writes the attributes from index `i` on, then the closing sentinel.
    fn write_attrs_from(&mut self, attrs: &Vec<AttributeVal>, i: usize)
        requires
            i <= attrs@.len(),
        ensures
            final(self)@ == old(self)@ + enc_attrs(dv_attrs(attrs@.skip(i as int))),
        decreases attrs@.len() - i,
    {
        let ghost rem = attrs@.skip(i as int);
        if i == attrs.len() {
            self.write_end_list();
            proof {
                assert(rem =~= Seq::<AttributeVal>::empty());
                assert(enc_attrs(dv_attrs(rem)) =~= seq![LIST_END]);
            }
        } else {
            let r = match &attrs[i] {
                AttributeVal::Class(s) => AttributeRef::Class(s),
                AttributeVal::Style(k, v) => AttributeRef::Style(k, v),
                AttributeVal::Event(t, u) => AttributeRef::Event(*t, *u),
            };
            proof {
                assert(r.dv() == attrs@[i as int].dv());
            }
            self.write_attr(r);
            self.write_attrs_from(attrs, i + 1);
            proof {
                assert(rem.drop_first() =~= attrs@.skip(i as int + 1));
                assert(rem[0] == attrs@[i as int]);
                lemma_dv_attrs_len(rem);
                let d = dv_attrs(rem);
                assert(d == seq![rem[0].dv()] + dv_attrs(rem.drop_first()));
                assert(d[0] == rem[0].dv());
                assert(d.drop_first() =~= dv_attrs(rem.drop_first()));
                assert(enc_attrs(d) == enc_attr(rem[0].dv()) + enc_attrs(
                    dv_attrs(attrs@.skip(i as int + 1)),
                ));
                assert(self@ =~= old(self)@ + enc_attrs(dv_attrs(rem)));
            }
        }
    }

    /// Writes one node: its header, then, for an element, its attribute
    /// list and child list in order.
    pub fn write_node(&mut self, n: &NodeVal)
        ensures
            final(self)@ == old(self)@ + enc_node(n.dv()),
        decreases n, 0int, 0int,
    {
        match n {
            NodeVal::Element { id, name, attrs, children } => {
                self.write_el(*id, *name);
                self.write_attrs_from(attrs, 0);
                self.write_nodes_from(children, 0);
                proof {
                    assert(attrs@.skip(0) =~= attrs@);
                    assert(children@.skip(0) =~= children@);
                    assert(self@ =~= old(self)@ + enc_node(n.dv()));
                }
            },
            NodeVal::Text { id, text } => {
                self.write_text(*id, text);
                proof {
                    assert(self@ =~= old(self)@ + enc_node(n.dv()));
                }
            },
        }
    }

    /// Writes the nodes from index `i` on, then the closing sentinel.
    fn write_nodes_from(&mut self, nodes: &Vec<NodeVal>, i: usize)
        requires
            i <= nodes@.len(),
        ensures
            final(self)@ == old(self)@ + enc_nodes(dv_nodes(nodes@.skip(i as int))),
        decreases nodes, 1int, nodes@.len() - i,
    {
        let ghost rem = nodes@.skip(i as int);
        if i == nodes.len() {
            self.write_end_list();
            proof {
                assert(rem =~= Seq::<NodeVal>::empty());
                assert(enc_nodes(dv_nodes(rem)) =~= seq![LIST_END]);
            }
        } else {
            self.write_node(&nodes[i]);
            self.write_nodes_from(nodes, i + 1);
            proof {
                assert(rem.drop_first() =~= nodes@.skip(i as int + 1));
                assert(rem[0] == nodes@[i as int]);
                lemma_dv_nodes_len(rem);
                let d = dv_nodes(rem);
                assert(d == seq![rem[0].dv()] + dv_nodes(rem.drop_first()));
                assert(d[0] == rem[0].dv());
                assert(d.drop_first() =~= dv_nodes(rem.drop_first()));
                assert(enc_nodes(d) == enc_node(rem[0].dv()) + enc_nodes(
                    dv_nodes(nodes@.skip(i as int + 1)),
                ));
                assert(self@ =~= old(self)@ + enc_nodes(dv_nodes(rem)));
            }
        }
    }

    /// Writes one patch: its header, then the attribute list of a
    /// `ModifyAttrs` patch or the node list of every other kind.
    pub fn write_patch(&mut self, p: &PatchVal)
        ensures
            final(self)@ == old(self)@ + enc_patch(p.dv()),
    {
        match p {
            PatchVal::Replace(id, nodes) => {
                self.write_patch_type(PatchType::Replace, *id);
                self.write_nodes_from(nodes, 0);
            },
            PatchVal::ModifyAttrs(id, attrs) => {
                self.write_patch_type(PatchType::ModifyAttrs, *id);
                self.write_attrs_from(attrs, 0);
            },
            PatchVal::Remove(id, nodes) => {
                self.write_patch_type(PatchType::Remove, *id);
                self.write_nodes_from(nodes, 0);
            },
            PatchVal::Append(id, nodes) => {
                self.write_patch_type(PatchType::Append, *id);
                self.write_nodes_from(nodes, 0);
            },
            PatchVal::AppendMultiple(id, nodes) => {
                self.write_patch_type(PatchType::AppendMultiple, *id);
                self.write_nodes_from(nodes, 0);
            },
        }
        proof {
            match p {
                PatchVal::Replace(id, nodes) => {
                    assert(nodes@.skip(0) =~= nodes@);
                },
                PatchVal::ModifyAttrs(id, attrs) => {
                    assert(attrs@.skip(0) =~= attrs@);
                },
                PatchVal::Remove(id, nodes) => {
                    assert(nodes@.skip(0) =~= nodes@);
                },
                PatchVal::Append(id, nodes) => {
                    assert(nodes@.skip(0) =~= nodes@);
                },
                PatchVal::AppendMultiple(id, nodes) => {
                    assert(nodes@.skip(0) =~= nodes@);
                },
            }
            assert(self@ =~= old(self)@ + enc_patch(p.dv()));
        }
    }

    /// Writes the patches from index `i` on, then the closing sentinel.
    fn write_patches_from(&mut self, patches: &Vec<PatchVal>, i: usize)
        requires
            i <= patches@.len(),
        ensures
            final(self)@ == old(self)@ + enc_patches(dv_patches(patches@.skip(i as int))),
        decreases patches@.len() - i,
    {
        let ghost rem = patches@.skip(i as int);
        if i == patches.len() {
            self.write_end_list();
            proof {
                assert(rem =~= Seq::<PatchVal>::empty());
                assert(enc_patches(dv_patches(rem)) =~= seq![LIST_END]);
            }
        } else {
            self.write_patch(&patches[i]);
            self.write_patches_from(patches, i + 1);
            proof {
                assert(rem.drop_first() =~= patches@.skip(i as int + 1));
                assert(rem[0] == patches@[i as int]);
                lemma_dv_patches_len(rem);
                let d = dv_patches(rem);
                assert(d == seq![rem[0].dv()] + dv_patches(rem.drop_first()));
                assert(d[0] == rem[0].dv());
                assert(d.drop_first() =~= dv_patches(rem.drop_first()));
                assert(enc_patches(d) == enc_patch(rem[0].dv()) + enc_patches(
                    dv_patches(patches@.skip(i as int + 1)),
                ));
                assert(self@ =~= old(self)@ + enc_patches(dv_patches(rem)));
            }
        }
    }

    /// Writes a whole message: the message-type tag, then the payload its
    /// grammar calls for.
    pub fn write_msg(&mut self, m: &Message)
        requires
            m.encodable(),
        ensures
            final(self)@ == old(self)@ + enc_msg(m.dv()),
    {
        match m {
            Message::Patch(patches) => {
                self.write_msg_type(MessageType::Patch);
                self.write_patches_from(patches, 0);
                proof {
                    assert(patches@.skip(0) =~= patches@);
                    assert(self@ =~= old(self)@ + enc_msg(m.dv()));
                }
            },
            Message::Event(t, u, ids) => {
                self.write_msg_type(MessageType::Event);
                self.write_event_type(*t);
                self.write_event_sub(*u);
                let count = ids.len();
                self.write_u32(count as u32);
                let ghost mid = self@;
                let mut i: usize = 0;
                while i < ids.len()
                    invariant
                        i <= ids@.len(),
                        self@ == mid + enc_ids(ids@.take(i as int)),
                    decreases ids@.len() - i,
                {
                    let ghost before = ids@.take(i as int);
                    self.write_u64(ids[i]);
                    i = i + 1;
                    proof {
                        let now = ids@.take(i as int);
                        lemma_enc_ids_snoc(before, ids@[i - 1]);
                        assert(now =~= before.push(ids@[i - 1]));
                        assert(self@ =~= mid + enc_ids(now));
                    }
                }
                proof {
                    assert(ids@.take(ids@.len() as int) =~= ids@);
                    assert(self@ =~= old(self)@ + enc_msg(m.dv()));
                }
            },
            Message::EventAck => {
                self.write_msg_type(MessageType::EventAck);
                proof {
                    assert(self@ =~= old(self)@ + enc_msg(m.dv()));
                }
            },
        }
    }
}

/// Appending one id to a list appends its eight bytes to the encoding.
proof fn lemma_enc_ids_snoc(ids: Seq<u64>, id: u64)
    ensures
        enc_ids(ids.push(id)) == enc_ids(ids) + enc_u64(id),
    decreases ids.len(),
{
    let w = ids.push(id);
    if ids.len() == 0 {
        assert(w[0] == id);
        assert(w.drop_first() =~= Seq::<u64>::empty());
        assert(enc_ids(Seq::<u64>::empty()) =~= Seq::<u8>::empty());
        assert(enc_ids(w) =~= enc_u64(id));
        assert(enc_ids(ids) + enc_u64(id) =~= enc_u64(id));
    } else {
        lemma_enc_ids_snoc(ids.drop_first(), id);
        assert(w.drop_first() =~= ids.drop_first().push(id));
        assert(w[0] == ids[0]);
        assert(enc_ids(w) == enc_u64(ids[0]) + enc_ids(ids.drop_first().push(id)));
        assert(enc_ids(w) =~= enc_ids(ids) + enc_u64(id));
    }
}

/// Encodes a whole message into a fresh byte vector.
pub fn encode(m: &Message) -> (r: Vec<u8>)
    requires
        m.encodable(),
    ensures
        r@ == enc_msg(m.dv()),
{
    let mut w = PatchWriter::new();
    w.write_msg(m);
    w.into_bytes()
}

} // verus!
