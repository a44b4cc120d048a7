//! The decoder: reads the wire format from an in-memory byte buffer.
//!
//! Every read method consumes exactly the bytes that the corresponding
//! [`crate::wire`] decoding function describes, returns the same value, and
//! fails with the same error; [`decode`] reads one complete message.

use vstd::prelude::*;

use crate::domstr::{checked_string, DomString};
use crate::element::ElementName;
use crate::error::{DecodeError, EnumKind};
use crate::model::{dv_attrs, dv_nodes, dv_patches, AttrG, Message, MessageG, NodeG, NodeVal, PatchG, PatchVal};
use crate::patch::{AttributeVal, EventSubscription, EventType, MessageType, NodeType, PatchType};
use crate::wire::{
    dec_attr, dec_attrs, dec_el, dec_event, dec_event_type, dec_id_list,
    dec_ids, dec_message_type, dec_msg, dec_node_entry, dec_node_type, dec_nodes,
    dec_patch_entry, dec_patch_header, dec_patches, dec_str, dec_subscription, dec_text, dec_u32,
    dec_u64, dec_u8, u32_from_be, u64_from_be, LIST_END,
};

verus! {

/// A reader over one received byte buffer, consuming from the front.
pub struct PatchReader {
    buf: Vec<u8>,
    pos: usize,
}

impl PatchReader {
    /// The position never runs past the end of the buffer.
    #[verifier::type_invariant]
    spec fn inv(self) -> bool {
        self.pos <= self.buf@.len()
    }

    /// The whole buffer the reader was given.
    pub closed spec fn data(&self) -> Seq<u8> {
        self.buf@
    }

    /// The count of bytes consumed so far.
    pub closed spec fn spec_pos(&self) -> int {
        self.pos as int
    }

    /// The bytes not yet consumed.
    pub open spec fn remaining(&self) -> Seq<u8> {
        self.data().skip(self.spec_pos())
    }

    /// A reader at the start of the given buffer.
    pub fn new(buf: Vec<u8>) -> (r: PatchReader)
        ensures
            r.data() == buf@,
            r.spec_pos() == 0,
    {
        PatchReader { buf, pos: 0 }
    }

    /// The count of bytes consumed so far.
    pub fn pos(&self) -> (r: usize)
        ensures
            r == self.spec_pos(),
    {
        self.pos
    }

    /// The count of bytes not yet consumed.
    pub fn remaining_len(&self) -> (r: usize)
        ensures
            r == self.remaining().len(),
    {
        proof {
            use_type_invariant(self);
        }
        self.buf.len() - self.pos
    }

    /// Reads one byte.
    pub fn read_u8(&mut self) -> (r: Result<u8, DecodeError>)
        ensures
            final(self).data() == old(self).data(),
            old(self).spec_pos() <= final(self).spec_pos() <= old(self).data().len(),
            match r {
                Ok(b) => dec_u8(old(self).remaining()) == Ok::<(u8, int), DecodeError>(
                    (b, final(self).spec_pos() - old(self).spec_pos()),
                ) && final(self).remaining() == old(self).remaining().skip(1),
                Err(e) => dec_u8(old(self).remaining()) == Err::<(u8, int), DecodeError>(e),
            },
    {
        proof {
            use_type_invariant(&*self);
        }
        if self.pos < self.buf.len() {
            let b = self.buf[self.pos];
            self.pos = self.pos + 1;
            proof {
                assert(old(self).remaining()[0] == b);
                assert(self.remaining() =~= old(self).remaining().skip(1));
            }
            Ok(b)
        } else {
            proof {
                assert(old(self).remaining().len() == 0);
            }
            Err(DecodeError::TruncatedStream)
        }
    }

    /// Reads an unsigned 64-bit integer, big-endian.
    pub fn read_u64(&mut self) -> (r: Result<u64, DecodeError>)
        ensures
            final(self).data() == old(self).data(),
            old(self).spec_pos() <= final(self).spec_pos() <= old(self).data().len(),
            match r {
                Ok(v) => dec_u64(old(self).remaining()) == Ok::<(u64, int), DecodeError>(
                    (v, final(self).spec_pos() - old(self).spec_pos()),
                ) && final(self).remaining() == old(self).remaining().skip(8),
                Err(e) => dec_u64(old(self).remaining()) == Err::<(u64, int), DecodeError>(e),
            },
    {
        proof {
            use_type_invariant(&*self);
        }
        if self.buf.len() - self.pos < 8 {
            proof {
                assert(old(self).remaining().len() < 8);
            }
            return Err(DecodeError::TruncatedStream);
        }
        let b0 = self.buf[self.pos];
        let b1 = self.buf[self.pos + 1];
        let b2 = self.buf[self.pos + 2];
        let b3 = self.buf[self.pos + 3];
        let b4 = self.buf[self.pos + 4];
        let b5 = self.buf[self.pos + 5];
        let b6 = self.buf[self.pos + 6];
        let b7 = self.buf[self.pos + 7];
        self.pos = self.pos + 8;
        let v = ((b0 as u64) << 56) | ((b1 as u64) << 48) | ((b2 as u64) << 40) | ((b3 as u64)
            << 32) | ((b4 as u64) << 24) | ((b5 as u64) << 16) | ((b6 as u64) << 8) | (b7 as u64);
        proof {
            reveal(u64_from_be);
            let s = old(self).remaining();
            assert(s.take(8)[0] == b0 && s.take(8)[1] == b1 && s.take(8)[2] == b2 && s.take(8)[3]
                == b3 && s.take(8)[4] == b4 && s.take(8)[5] == b5 && s.take(8)[6] == b6 && s.take(
                8,
            )[7] == b7);
            assert(u64_from_be(s.take(8)) == v);
            assert(self.remaining() =~= s.skip(8));
        }
        Ok(v)
    }

    /// Reads an unsigned 32-bit integer, big-endian.
    pub fn read_u32(&mut self) -> (r: Result<u32, DecodeError>)
        ensures
            final(self).data() == old(self).data(),
            old(self).spec_pos() <= final(self).spec_pos() <= old(self).data().len(),
            match r {
                Ok(v) => dec_u32(old(self).remaining()) == Ok::<(u32, int), DecodeError>(
                    (v, final(self).spec_pos() - old(self).spec_pos()),
                ) && final(self).remaining() == old(self).remaining().skip(4),
                Err(e) => dec_u32(old(self).remaining()) == Err::<(u32, int), DecodeError>(e),
            },
    {
        proof {
            use_type_invariant(&*self);
        }
        if self.buf.len() - self.pos < 4 {
            proof {
                assert(old(self).remaining().len() < 4);
            }
            return Err(DecodeError::TruncatedStream);
        }
        let b0 = self.buf[self.pos];
        let b1 = self.buf[self.pos + 1];
        let b2 = self.buf[self.pos + 2];
        let b3 = self.buf[self.pos + 3];
        self.pos = self.pos + 4;
        let v = ((b0 as u32) << 24) | ((b1 as u32) << 16) | ((b2 as u32) << 8) | (b3 as u32);
        proof {
            reveal(u32_from_be);
            let s = old(self).remaining();
            assert(s.take(4)[0] == b0 && s.take(4)[1] == b1 && s.take(4)[2] == b2 && s.take(4)[3]
                == b3);
            assert(u32_from_be(s.take(4)) == v);
            assert(self.remaining() =~= s.skip(4));
        }
        Ok(v)
    }

    /// Reads a message-type tag, rejecting unknown codes.
    pub fn read_msg_type(&mut self) -> (r: Result<MessageType, DecodeError>)
        ensures
            final(self).data() == old(self).data(),
            old(self).spec_pos() <= final(self).spec_pos() <= old(self).data().len(),
            match r {
                Ok(t) => dec_message_type(old(self).remaining()) == Ok::<
                    (MessageType, int),
                    DecodeError,
                >((t, 1)) && final(self).remaining() == old(self).remaining().skip(1),
                Err(e) => dec_message_type(old(self).remaining()) == Err::<
                    (MessageType, int),
                    DecodeError,
                >(e),
            },
    {
        let b = match self.read_u8() {
            Ok(b) => b,
            Err(e) => {
                return Err(e);
            },
        };
        match MessageType::from_code(b) {
            Some(t) => Ok(t),
            None => Err(DecodeError::InvalidDiscriminant(b, EnumKind::Message)),
        }
    }

    /// Reads an event-type byte, rejecting unknown codes.
    pub fn read_event_type(&mut self) -> (r: Result<EventType, DecodeError>)
        ensures
            final(self).data() == old(self).data(),
            old(self).spec_pos() <= final(self).spec_pos() <= old(self).data().len(),
            match r {
                Ok(t) => dec_event_type(old(self).remaining()) == Ok::<
                    (EventType, int),
                    DecodeError,
                >((t, 1)) && final(self).remaining() == old(self).remaining().skip(1),
                Err(e) => dec_event_type(old(self).remaining()) == Err::<
                    (EventType, int),
                    DecodeError,
                >(e),
            },
    {
        let b = match self.read_u8() {
            Ok(b) => b,
            Err(e) => {
                return Err(e);
            },
        };
        match EventType::from_code(b) {
            Some(t) => Ok(t),
            None => Err(DecodeError::InvalidDiscriminant(b, EnumKind::Event)),
        }
    }

    /// Reads an event-subscription byte, rejecting unknown codes.
    pub fn read_event_sub(&mut self) -> (r: Result<EventSubscription, DecodeError>)
        ensures
            final(self).data() == old(self).data(),
            old(self).spec_pos() <= final(self).spec_pos() <= old(self).data().len(),
            match r {
                Ok(u) => dec_subscription(old(self).remaining()) == Ok::<
                    (EventSubscription, int),
                    DecodeError,
                >((u, 1)) && final(self).remaining() == old(self).remaining().skip(1),
                Err(e) => dec_subscription(old(self).remaining()) == Err::<
                    (EventSubscription, int),
                    DecodeError,
                >(e),
            },
    {
        let b = match self.read_u8() {
            Ok(b) => b,
            Err(e) => {
                return Err(e);
            },
        };
        match EventSubscription::from_code(b) {
            Some(u) => Ok(u),
            None => Err(DecodeError::InvalidDiscriminant(b, EnumKind::Subscription)),
        }
    }

    /// Reads a node-type tag, returning `None` when the sentinel closed a
    /// node list, and rejecting unknown codes.
    pub fn read_node_type(&mut self) -> (r: Result<Option<NodeType>, DecodeError>)
        ensures
            final(self).data() == old(self).data(),
            old(self).spec_pos() <= final(self).spec_pos() <= old(self).data().len(),
            match r {
                Ok(t) => dec_node_type(old(self).remaining()) == Ok::<
                    (Option<NodeType>, int),
                    DecodeError,
                >((t, 1)) && final(self).remaining() == old(self).remaining().skip(1),
                Err(e) => dec_node_type(old(self).remaining()) == Err::<
                    (Option<NodeType>, int),
                    DecodeError,
                >(e),
            },
    {
        let b = match self.read_u8() {
            Ok(b) => b,
            Err(e) => {
                return Err(e);
            },
        };
        if b == LIST_END {
            Ok(None)
        } else {
            match NodeType::from_code(b) {
                Some(t) => Ok(Some(t)),
                None => Err(DecodeError::InvalidDiscriminant(b, EnumKind::Node)),
            }
        }
    }

    /// Reads a patch header, returning `None` when the sentinel closed the
    /// patch list, and the patch type and target id otherwise.
    pub fn read_patch_type(&mut self) -> (r: Result<Option<(PatchType, u64)>, DecodeError>)
        ensures
            final(self).data() == old(self).data(),
            old(self).spec_pos() <= final(self).spec_pos() <= old(self).data().len(),
            match r {
                Ok(h) => dec_patch_header(old(self).remaining()) == Ok::<
                    (Option<(PatchType, u64)>, int),
                    DecodeError,
                >((h, final(self).spec_pos() - old(self).spec_pos())) && final(self).remaining()
                    == old(self).remaining().skip(
                    final(self).spec_pos() - old(self).spec_pos(),
                ),
                Err(e) => dec_patch_header(old(self).remaining()) == Err::<
                    (Option<(PatchType, u64)>, int),
                    DecodeError,
                >(e),
            },
    {
        let b = match self.read_u8() {
            Ok(b) => b,
            Err(e) => {
                return Err(e);
            },
        };
        if b == LIST_END {
            return Ok(None);
        }
        let ty = match PatchType::from_code(b) {
            Some(ty) => ty,
            None => {
                return Err(DecodeError::InvalidDiscriminant(b, EnumKind::Patch));
            },
        };
        let ghost s = old(self).remaining();
        let id = match self.read_u64() {
            Ok(id) => id,
            Err(e) => {
                return Err(e);
            },
        };
        proof {
            assert(self.remaining() =~= s.skip(9));
        }
        Ok(Some((ty, id)))
    }

    /// Reads a string frame: the 32-bit byte length, then exactly that many
    /// bytes, which must be valid UTF-8.
    pub fn read_dom_str(&mut self) -> (r: Result<DomString, DecodeError>)
        ensures
            final(self).data() == old(self).data(),
            old(self).spec_pos() <= final(self).spec_pos() <= old(self).data().len(),
            match r {
                Ok(ds) => dec_str(old(self).remaining()) == Ok::<(Seq<u8>, int), DecodeError>(
                    (ds@, final(self).spec_pos() - old(self).spec_pos()),
                ) && final(self).remaining() == old(self).remaining().skip(
                    final(self).spec_pos() - old(self).spec_pos(),
                ),
                Err(e) => dec_str(old(self).remaining()) == Err::<(Seq<u8>, int), DecodeError>(e),
            },
    {
        let ghost s = old(self).remaining();
        let n = match self.read_u32() {
            Ok(n) => n,
            Err(e) => {
                return Err(e);
            },
        };
        let len = n as usize;
        proof {
            use_type_invariant(&*self);
        }
        if self.buf.len() - self.pos < len {
            proof {
                assert(s.len() - 4 < n as int);
            }
            return Err(DecodeError::TruncatedStream);
        }
        let mut body: Vec<u8> = Vec::new();
        let start = self.pos;
        let end = self.pos + len;
        let mut idx: usize = start;
        while idx < end
            invariant
                start <= idx <= end,
                end <= self.buf@.len(),
                start == self.spec_pos(),
                body@ == self.buf@.subrange(start as int, idx as int),
            decreases end - idx,
        {
            let b = self.buf[idx];
            body.push(b);
            idx = idx + 1;
            proof {
                assert(body@ =~= self.buf@.subrange(start as int, idx as int));
            }
        }
        proof {
            assert(body@ =~= s.subrange(4, 4 + n as int));
        }
        self.pos = self.pos + len;
        let ds = match checked_string(body) {
            Ok(ds) => ds,
            Err(e) => {
                return Err(e);
            },
        };
        proof {
            assert(self.remaining() =~= s.skip(4 + n as int));
        }
        Ok(ds)
    }

    /// Reads an element header: the id, then the element-name code,
    /// rejecting unknown codes.
    pub fn read_el(&mut self) -> (r: Result<(u64, ElementName), DecodeError>)
        ensures
            final(self).data() == old(self).data(),
            old(self).spec_pos() <= final(self).spec_pos() <= old(self).data().len(),
            match r {
                Ok(h) => dec_el(old(self).remaining()) == Ok::<
                    ((u64, ElementName), int),
                    DecodeError,
                >((h, 9)) && final(self).spec_pos() == old(self).spec_pos() + 9 && final(self).remaining() == old(self).remaining().skip(9),
                Err(e) => dec_el(old(self).remaining()) == Err::<
                    ((u64, ElementName), int),
                    DecodeError,
                >(e),
            },
    {
        let ghost s = old(self).remaining();
        let id = match self.read_u64() {
            Ok(id) => id,
            Err(e) => {
                return Err(e);
            },
        };
        let b = match self.read_u8() {
            Ok(b) => b,
            Err(e) => {
                proof {
                    assert(dec_u8(s.skip(8)) == Err::<(u8, int), DecodeError>(e));
                }
                return Err(e);
            },
        };
        let name = match ElementName::from_code(b) {
            Some(name) => name,
            None => {
                return Err(DecodeError::InvalidDiscriminant(b, EnumKind::Element));
            },
        };
        proof {
            assert(self.remaining() =~= s.skip(9));
        }
        Ok((id, name))
    }

    /// Reads a text node body: the id, then the string body.
    pub fn read_text(&mut self) -> (r: Result<(u64, DomString), DecodeError>)
        ensures
            final(self).data() == old(self).data(),
            old(self).spec_pos() <= final(self).spec_pos() <= old(self).data().len(),
            match r {
                Ok(h) => dec_text(old(self).remaining()) == Ok::<
                    ((u64, Seq<u8>), int),
                    DecodeError,
                >(((h.0, h.1@), final(self).spec_pos() - old(self).spec_pos())) && final(self).remaining() == old(self).remaining().skip(
                    final(self).spec_pos() - old(self).spec_pos(),
                ),
                Err(e) => dec_text(old(self).remaining()) == Err::<
                    ((u64, Seq<u8>), int),
                    DecodeError,
                >(e),
            },
    {
        let ghost s = old(self).remaining();
        let id = match self.read_u64() {
            Ok(id) => id,
            Err(e) => {
                return Err(e);
            },
        };
        let text = match self.read_dom_str() {
            Ok(t) => t,
            Err(e) => {
                return Err(e);
            },
        };
        proof {
            let k = self.spec_pos() - old(self).spec_pos();
            assert(self.remaining() =~= s.skip(k));
        }
        Ok((id, text))
    }

    /// Reads one entry of an attribute list: `None` when the sentinel
    /// closed the list, the attribute otherwise.
    pub fn read_attr(&mut self) -> (r: Result<Option<AttributeVal>, DecodeError>)
        ensures
            final(self).data() == old(self).data(),
            old(self).spec_pos() <= final(self).spec_pos() <= old(self).data().len(),
            match r {
                Ok(None) => dec_attr(old(self).remaining()) == Ok::<
                    (Option<AttrG>, int),
                    DecodeError,
                >((None, 1)) && final(self).spec_pos() == old(self).spec_pos() + 1 && final(self).remaining() == old(self).remaining().skip(1),
                Ok(Some(a)) => dec_attr(old(self).remaining()) == Ok::<
                    (Option<AttrG>, int),
                    DecodeError,
                >((Some(a.dv()), final(self).spec_pos() - old(self).spec_pos())) && final(self).spec_pos() > old(self).spec_pos() && final(self).remaining() == old(self).remaining().skip(final(self).spec_pos() - old(self).spec_pos()),
                Err(e) => dec_attr(old(self).remaining()) == Err::<
                    (Option<AttrG>, int),
                    DecodeError,
                >(e),
            },
    {
        let ghost s = old(self).remaining();
        let tag = match self.read_u8() {
            Ok(b) => b,
            Err(e) => {
                return Err(e);
            },
        };
        if tag == LIST_END {
            return Ok(None);
        }
        if tag == 0 {
            let body = match self.read_dom_str() {
                Ok(b) => b,
                Err(e) => {
                    return Err(e);
                },
            };
            proof {
                let k = self.spec_pos() - old(self).spec_pos();
                assert(self.remaining() =~= s.skip(k));
            }
            Ok(Some(AttributeVal::Class(body)))
        } else if tag == 1 {
            let ghost s1 = s.skip(1);
            let key = match self.read_dom_str() {
                Ok(b) => b,
                Err(e) => {
                    return Err(e);
                },
            };
            let ghost k1 = self.spec_pos() - old(self).spec_pos() - 1;
            proof {
                assert(self.remaining() =~= s.skip(1 + k1));
            }
            let value = match self.read_dom_str() {
                Ok(b) => b,
                Err(e) => {
                    proof {
                        assert(dec_str(s.skip(1 + k1)) == Err::<(Seq<u8>, int), DecodeError>(e));
                    }
                    return Err(e);
                },
            };
            proof {
                let k = self.spec_pos() - old(self).spec_pos();
                assert(self.remaining() =~= s.skip(k));
            }
            Ok(Some(AttributeVal::Style(key, value)))
        } else if tag == 2 {
            let ty = match self.read_event_type() {
                Ok(t) => t,
                Err(e) => {
                    return Err(e);
                },
            };
            let sub = match self.read_event_sub() {
                Ok(u) => u,
                Err(e) => {
                    proof {
                        assert(dec_subscription(s.skip(2)) == Err::<
                            (EventSubscription, int),
                            DecodeError,
                        >(e));
                    }
                    return Err(e);
                },
            };
            proof {
                assert(self.remaining() =~= s.skip(3));
            }
            Ok(Some(AttributeVal::Event(ty, sub)))
        } else {
            Err(DecodeError::InvalidDiscriminant(tag, EnumKind::Attribute))
        }
    }

    /// Reads an attribute list: entries until the sentinel.
    pub fn read_attr_list(&mut self) -> (r: Result<Vec<AttributeVal>, DecodeError>)
        ensures
            final(self).data() == old(self).data(),
            old(self).spec_pos() <= final(self).spec_pos() <= old(self).data().len(),
            match r {
                Ok(v) => dec_attrs(old(self).remaining()) == Ok::<
                    (Seq<AttrG>, int),
                    DecodeError,
                >((dv_attrs(v@), final(self).spec_pos() - old(self).spec_pos())) && final(self).spec_pos() > old(self).spec_pos() && final(self).remaining() == old(self).remaining().skip(final(self).spec_pos() - old(self).spec_pos()),
                Err(e) => dec_attrs(old(self).remaining()) == Err::<
                    (Seq<AttrG>, int),
                    DecodeError,
                >(e),
            },
        decreases self.remaining().len(),
    {
        let ghost s = old(self).remaining();
        match self.read_attr() {
            Err(e) => Err(e),
            Ok(None) => {
                let v: Vec<AttributeVal> = Vec::new();
                proof {
                    assert(v@ =~= Seq::<AttributeVal>::empty());
                    assert(dv_attrs(v@) =~= Seq::<AttrG>::empty());
                }
                Ok(v)
            },
            Ok(Some(a)) => {
                let ghost k1 = self.spec_pos() - old(self).spec_pos();
                let mut rest = match self.read_attr_list() {
                    Ok(v) => v,
                    Err(e) => {
                        return Err(e);
                    },
                };
                let ghost k2 = self.spec_pos() - old(self).spec_pos() - k1;
                proof {
                    assert(self.remaining() =~= s.skip(k1 + k2));
                }
                let ghost rest0 = rest@;
                rest.insert(0, a);
                proof {
                    assert(rest@ =~= seq![a] + rest0);
                    assert(rest@[0] == a);
                    assert(rest@.drop_first() =~= rest0);
                    assert(dv_attrs(rest@) =~= seq![a.dv()] + dv_attrs(rest0));
                }
                Ok(rest)
            },
        }
    }

    /// Reads one entry of a node list: `None` when the sentinel closed the
    /// list, the decoded subtree otherwise.
    pub fn read_node(&mut self) -> (r: Result<Option<NodeVal>, DecodeError>)
        ensures
            final(self).data() == old(self).data(),
            old(self).spec_pos() <= final(self).spec_pos() <= old(self).data().len(),
            match r {
                Ok(None) => dec_node_entry(old(self).remaining()) == Ok::<
                    (Option<NodeG>, int),
                    DecodeError,
                >((None, 1)) && final(self).spec_pos() == old(self).spec_pos() + 1 && final(self).remaining() == old(self).remaining().skip(1),
                Ok(Some(n)) => dec_node_entry(old(self).remaining()) == Ok::<
                    (Option<NodeG>, int),
                    DecodeError,
                >((Some(n.dv()), final(self).spec_pos() - old(self).spec_pos())) && final(self).spec_pos() > old(self).spec_pos() && final(self).remaining() == old(self).remaining().skip(final(self).spec_pos() - old(self).spec_pos()),
                Err(e) => dec_node_entry(old(self).remaining()) == Err::<
                    (Option<NodeG>, int),
                    DecodeError,
                >(e),
            },
        decreases self.remaining().len(), 0int,
    {
        let ghost s = old(self).remaining();
        let ty = match self.read_node_type() {
            Ok(t) => t,
            Err(e) => {
                return Err(e);
            },
        };
        match ty {
            None => Ok(None),
            Some(NodeType::Element) => {
                let (id, name) = match self.read_el() {
                    Ok(h) => h,
                    Err(e) => {
                        proof {
                            if s.len() >= 9 {
                                assert(s.skip(1).skip(8) =~= s.skip(9));
                            }
                        }
                        return Err(e);
                    },
                };
                proof {
                    assert(s.skip(1).skip(8) =~= s.skip(9));
                    assert(self.remaining() =~= s.skip(10));
                }
                let attrs = match self.read_attr_list() {
                    Ok(v) => v,
                    Err(e) => {
                        return Err(e);
                    },
                };
                let ghost ka = self.spec_pos() - old(self).spec_pos() - 10;
                proof {
                    assert(self.remaining() =~= s.skip(10 + ka));
                }
                let children = match self.read_node_list() {
                    Ok(v) => v,
                    Err(e) => {
                        return Err(e);
                    },
                };
                let ghost kc = self.spec_pos() - old(self).spec_pos() - 10 - ka;
                let n = NodeVal::Element { id, name, attrs, children };
                proof {
                    assert(self.remaining() =~= s.skip(10 + ka + kc));
                }
                Ok(Some(n))
            },
            Some(NodeType::Text) => {
                let (id, text) = match self.read_text() {
                    Ok(h) => h,
                    Err(e) => {
                        proof {
                            if s.len() >= 9 {
                                assert(s.skip(1).skip(8) =~= s.skip(9));
                            }
                        }
                        return Err(e);
                    },
                };
                let n = NodeVal::Text { id, text };
                proof {
                    let k = self.spec_pos() - old(self).spec_pos();
                    assert(s.skip(1).skip(8) =~= s.skip(9));
                    assert(self.remaining() =~= s.skip(k));
                }
                Ok(Some(n))
            },
        }
    }

    /// Reads a node list: entries until the sentinel.
    pub fn read_node_list(&mut self) -> (r: Result<Vec<NodeVal>, DecodeError>)
        ensures
            final(self).data() == old(self).data(),
            old(self).spec_pos() <= final(self).spec_pos() <= old(self).data().len(),
            match r {
                Ok(v) => dec_nodes(old(self).remaining()) == Ok::<
                    (Seq<NodeG>, int),
                    DecodeError,
                >((dv_nodes(v@), final(self).spec_pos() - old(self).spec_pos())) && final(self).spec_pos() > old(self).spec_pos() && final(self).remaining() == old(self).remaining().skip(final(self).spec_pos() - old(self).spec_pos()),
                Err(e) => dec_nodes(old(self).remaining()) == Err::<
                    (Seq<NodeG>, int),
                    DecodeError,
                >(e),
            },
        decreases self.remaining().len(), 1int,
    {
        let ghost s = old(self).remaining();
        match self.read_node() {
            Err(e) => Err(e),
            Ok(None) => {
                let v: Vec<NodeVal> = Vec::new();
                proof {
                    assert(v@ =~= Seq::<NodeVal>::empty());
                    assert(dv_nodes(v@) =~= Seq::<NodeG>::empty());
                }
                Ok(v)
            },
            Ok(Some(n)) => {
                let ghost k1 = self.spec_pos() - old(self).spec_pos();
                let mut rest = match self.read_node_list() {
                    Ok(v) => v,
                    Err(e) => {
                        return Err(e);
                    },
                };
                let ghost k2 = self.spec_pos() - old(self).spec_pos() - k1;
                proof {
                    assert(self.remaining() =~= s.skip(k1 + k2));
                }
                let ghost rest0 = rest@;
                rest.insert(0, n);
                proof {
                    assert(rest@ =~= seq![n] + rest0);
                    assert(rest@[0] == n);
                    assert(rest@.drop_first() =~= rest0);
                    assert(dv_nodes(rest@) =~= seq![n.dv()] + dv_nodes(rest0));
                }
                Ok(rest)
            },
        }
    }

    /// Reads one entry of a patch list: `None` when the sentinel closed the
    /// list, the patch otherwise.
    pub fn read_patch(&mut self) -> (r: Result<Option<PatchVal>, DecodeError>)
        ensures
            final(self).data() == old(self).data(),
            old(self).spec_pos() <= final(self).spec_pos() <= old(self).data().len(),
            match r {
                Ok(None) => dec_patch_entry(old(self).remaining()) == Ok::<
                    (Option<PatchG>, int),
                    DecodeError,
                >((None, 1)) && final(self).spec_pos() == old(self).spec_pos() + 1 && final(self).remaining() == old(self).remaining().skip(1),
                Ok(Some(p)) => dec_patch_entry(old(self).remaining()) == Ok::<
                    (Option<PatchG>, int),
                    DecodeError,
                >((Some(p.dv()), final(self).spec_pos() - old(self).spec_pos())) && final(self).spec_pos() > old(self).spec_pos() && final(self).remaining() == old(self).remaining().skip(final(self).spec_pos() - old(self).spec_pos()),
                Err(e) => dec_patch_entry(old(self).remaining()) == Err::<
                    (Option<PatchG>, int),
                    DecodeError,
                >(e),
            },
    {
        let ghost s = old(self).remaining();
        let header = match self.read_patch_type() {
            Ok(h) => h,
            Err(e) => {
                return Err(e);
            },
        };
        let (ty, id) = match header {
            None => {
                return Ok(None);
            },
            Some(h) => h,
        };
        proof {
            assert(self.remaining() =~= s.skip(9));
        }
        match ty {
            PatchType::ModifyAttrs => {
                let attrs = match self.read_attr_list() {
                    Ok(v) => v,
                    Err(e) => {
                        return Err(e);
                    },
                };
                proof {
                    let k = self.spec_pos() - old(self).spec_pos();
                    assert(self.remaining() =~= s.skip(k));
                }
                Ok(Some(PatchVal::ModifyAttrs(id, attrs)))
            },
            PatchType::Replace => {
                let nodes = match self.read_node_list() {
                    Ok(v) => v,
                    Err(e) => {
                        return Err(e);
                    },
                };
                proof {
                    let k = self.spec_pos() - old(self).spec_pos();
                    assert(self.remaining() =~= s.skip(k));
                }
                Ok(Some(PatchVal::Replace(id, nodes)))
            },
            PatchType::Remove => {
                let nodes = match self.read_node_list() {
                    Ok(v) => v,
                    Err(e) => {
                        return Err(e);
                    },
                };
                proof {
                    let k = self.spec_pos() - old(self).spec_pos();
                    assert(self.remaining() =~= s.skip(k));
                }
                Ok(Some(PatchVal::Remove(id, nodes)))
            },
            PatchType::Append => {
                let nodes = match self.read_node_list() {
                    Ok(v) => v,
                    Err(e) => {
                        return Err(e);
                    },
                };
                proof {
                    let k = self.spec_pos() - old(self).spec_pos();
                    assert(self.remaining() =~= s.skip(k));
                }
                Ok(Some(PatchVal::Append(id, nodes)))
            },
            PatchType::AppendMultiple => {
                let nodes = match self.read_node_list() {
                    Ok(v) => v,
                    Err(e) => {
                        return Err(e);
                    },
                };
                proof {
                    let k = self.spec_pos() - old(self).spec_pos();
                    assert(self.remaining() =~= s.skip(k));
                }
                Ok(Some(PatchVal::AppendMultiple(id, nodes)))
            },
        }
    }

    /// Reads a patch list: entries until the sentinel.
    pub fn read_patch_list(&mut self) -> (r: Result<Vec<PatchVal>, DecodeError>)
        ensures
            final(self).data() == old(self).data(),
            old(self).spec_pos() <= final(self).spec_pos() <= old(self).data().len(),
            match r {
                Ok(v) => dec_patches(old(self).remaining()) == Ok::<
                    (Seq<PatchG>, int),
                    DecodeError,
                >((dv_patches(v@), final(self).spec_pos() - old(self).spec_pos())) && final(self).spec_pos() > old(self).spec_pos() && final(self).remaining() == old(self).remaining().skip(final(self).spec_pos() - old(self).spec_pos()),
                Err(e) => dec_patches(old(self).remaining()) == Err::<
                    (Seq<PatchG>, int),
                    DecodeError,
                >(e),
            },
        decreases self.remaining().len(),
    {
        let ghost s = old(self).remaining();
        match self.read_patch() {
            Err(e) => Err(e),
            Ok(None) => {
                let v: Vec<PatchVal> = Vec::new();
                proof {
                    assert(v@ =~= Seq::<PatchVal>::empty());
                    assert(dv_patches(v@) =~= Seq::<PatchG>::empty());
                }
                Ok(v)
            },
            Ok(Some(p)) => {
                let ghost k1 = self.spec_pos() - old(self).spec_pos();
                let mut rest = match self.read_patch_list() {
                    Ok(v) => v,
                    Err(e) => {
                        return Err(e);
                    },
                };
                let ghost k2 = self.spec_pos() - old(self).spec_pos() - k1;
                proof {
                    assert(self.remaining() =~= s.skip(k1 + k2));
                }
                let ghost rest0 = rest@;
                rest.insert(0, p);
                proof {
                    assert(rest@ =~= seq![p] + rest0);
                    assert(rest@[0] == p);
                    assert(rest@.drop_first() =~= rest0);
                    assert(dv_patches(rest@) =~= seq![p.dv()] + dv_patches(rest0));
                }
                Ok(rest)
            },
        }
    }

    /// Reads exactly `n` eight-byte node ids.
    fn read_ids(&mut self, n: u32) -> (r: Result<Vec<u64>, DecodeError>)
        ensures
            final(self).data() == old(self).data(),
            old(self).spec_pos() <= final(self).spec_pos() <= old(self).data().len(),
            match r {
                Ok(v) => dec_ids(old(self).remaining(), n as int) == Ok::<
                    (Seq<u64>, int),
                    DecodeError,
                >((v@, final(self).spec_pos() - old(self).spec_pos())) && v@.len() == n && final(self).remaining() == old(self).remaining().skip(
                    final(self).spec_pos() - old(self).spec_pos(),
                ),
                Err(e) => dec_ids(old(self).remaining(), n as int) == Err::<
                    (Seq<u64>, int),
                    DecodeError,
                >(e),
            },
        decreases n,
    {
        let ghost s = old(self).remaining();
        proof {
            use_type_invariant(&*self);
        }
        if n == 0 {
            let v: Vec<u64> = Vec::new();
            proof {
                assert(v@ =~= Seq::<u64>::empty());
                assert(self.remaining() =~= s.skip(0));
            }
            Ok(v)
        } else {
            let id = match self.read_u64() {
                Ok(id) => id,
                Err(e) => {
                    return Err(e);
                },
            };
            let mut rest = match self.read_ids(n - 1) {
                Ok(v) => v,
                Err(e) => {
                    return Err(e);
                },
            };
            let ghost k2 = self.spec_pos() - old(self).spec_pos() - 8;
            proof {
                assert(self.remaining() =~= s.skip(8 + k2));
            }
            let ghost rest0 = rest@;
            rest.insert(0, id);
            proof {
                assert(rest@ =~= seq![id] + rest0);
            }
            Ok(rest)
        }
    }

    /// Reads a node-id list: a 32-bit count, then exactly that many ids.
    pub fn read_node_id_list(&mut self) -> (r: Result<Vec<u64>, DecodeError>)
        ensures
            final(self).data() == old(self).data(),
            old(self).spec_pos() <= final(self).spec_pos() <= old(self).data().len(),
            match r {
                Ok(v) => dec_id_list(old(self).remaining()) == Ok::<
                    (Seq<u64>, int),
                    DecodeError,
                >((v@, final(self).spec_pos() - old(self).spec_pos())) && v@.len()
                    <= 0xFFFF_FFFF && final(self).remaining() == old(self).remaining().skip(
                    final(self).spec_pos() - old(self).spec_pos(),
                ),
                Err(e) => dec_id_list(old(self).remaining()) == Err::<
                    (Seq<u64>, int),
                    DecodeError,
                >(e),
            },
    {
        let ghost s = old(self).remaining();
        let n = match self.read_u32() {
            Ok(n) => n,
            Err(e) => {
                return Err(e);
            },
        };
        let ids = match self.read_ids(n) {
            Ok(v) => v,
            Err(e) => {
                proof {
                    assert(dec_ids(s.skip(4), n as int) == Err::<(Seq<u64>, int), DecodeError>(e));
                }
                return Err(e);
            },
        };
        proof {
            let k = self.spec_pos() - old(self).spec_pos();
            assert(self.remaining() =~= s.skip(k));
        }
        Ok(ids)
    }

    /// Reads an event: its type and subscription bytes, then the
    /// count-prefixed id list.
    pub fn read_event(&mut self) -> (r: Result<
        (EventType, EventSubscription, Vec<u64>),
        DecodeError,
    >)
        ensures
            final(self).data() == old(self).data(),
            old(self).spec_pos() <= final(self).spec_pos() <= old(self).data().len(),
            match r {
                Ok(ev) => dec_event(old(self).remaining()) == Ok::<
                    ((EventType, EventSubscription, Seq<u64>), int),
                    DecodeError,
                >(((ev.0, ev.1, ev.2@), final(self).spec_pos() - old(self).spec_pos()))
                    && ev.2@.len() <= 0xFFFF_FFFF && final(self).remaining() == old(self).remaining().skip(final(self).spec_pos() - old(self).spec_pos()),
                Err(e) => dec_event(old(self).remaining()) == Err::<
                    ((EventType, EventSubscription, Seq<u64>), int),
                    DecodeError,
                >(e),
            },
    {
        let ghost s = old(self).remaining();
        let ty = match self.read_event_type() {
            Ok(t) => t,
            Err(e) => {
                return Err(e);
            },
        };
        let sub = match self.read_event_sub() {
            Ok(u) => u,
            Err(e) => {
                proof {
                    assert(dec_subscription(s.skip(1)) == Err::<
                        (EventSubscription, int),
                        DecodeError,
                    >(e));
                }
                return Err(e);
            },
        };
        proof {
            assert(self.remaining() =~= s.skip(2));
            if s.len() >= 6 {
                assert(s.skip(2).skip(4) =~= s.skip(6));
            }
        }
        let ids = match self.read_node_id_list() {
            Ok(v) => v,
            Err(e) => {
                return Err(e);
            },
        };
        proof {
            let k = self.spec_pos() - old(self).spec_pos();
            assert(self.remaining() =~= s.skip(k));
        }
        Ok((ty, sub, ids))
    }

    /// Reads one whole message: the message-type tag, then the payload its
    /// grammar calls for.
    pub fn read_msg(&mut self) -> (r: Result<Message, DecodeError>)
        ensures
            final(self).data() == old(self).data(),
            old(self).spec_pos() <= final(self).spec_pos() <= old(self).data().len(),
            match r {
                Ok(m) => dec_msg(old(self).remaining()) == Ok::<(MessageG, int), DecodeError>(
                    (m.dv(), final(self).spec_pos() - old(self).spec_pos()),
                ) && m.encodable() && final(self).remaining() == old(self).remaining().skip(
                    final(self).spec_pos() - old(self).spec_pos(),
                ),
                Err(e) => dec_msg(old(self).remaining()) == Err::<(MessageG, int), DecodeError>(
                    e,
                ),
            },
    {
        let ghost s = old(self).remaining();
        let ty = match self.read_msg_type() {
            Ok(t) => t,
            Err(e) => {
                return Err(e);
            },
        };
        match ty {
            MessageType::Patch => {
                let patches = match self.read_patch_list() {
                    Ok(v) => v,
                    Err(e) => {
                        return Err(e);
                    },
                };
                let m = Message::Patch(patches);
                proof {
                    let k = self.spec_pos() - old(self).spec_pos();
                    assert(self.remaining() =~= s.skip(k));
                }
                Ok(m)
            },
            MessageType::Event => {
                let (ty, sub, ids) = match self.read_event() {
                    Ok(ev) => ev,
                    Err(e) => {
                        return Err(e);
                    },
                };
                let m = Message::Event(ty, sub, ids);
                proof {
                    let k = self.spec_pos() - old(self).spec_pos();
                    assert(self.remaining() =~= s.skip(k));
                }
                Ok(m)
            },
            MessageType::EventAck => Ok(Message::EventAck),
        }
    }
}

/// Decodes one whole message from the front of the given bytes; trailing
/// bytes after the message are ignored.
pub fn decode(bytes: Vec<u8>) -> (r: Result<Message, DecodeError>)
    ensures
        match r {
            Ok(m) => m.encodable() && dec_msg(bytes@) is Ok && dec_msg(bytes@)->Ok_0.0 == m.dv(),
            Err(e) => dec_msg(bytes@) == Err::<(MessageG, int), DecodeError>(e),
        },
{
    let mut reader = PatchReader::new(bytes);
    proof {
        assert(reader.remaining() =~= reader.data());
    }
    reader.read_msg()
}

} // verus!
