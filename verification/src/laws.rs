//! Proofs about the wire grammar: how decoding relates to encoding.
//!
//! The central results are the round-trip law ([`lemma_round_trip`]) and the
//! truncation law ([`lemma_truncation`]); the lemmas before them follow the
//! grammar layer by layer.

use vstd::prelude::*;

use crate::domstr::{is_utf8, wf_string};
use crate::element::{element_code, element_from_code, lemma_element_code_inverse, lemma_element_code_not_sentinel, ElementName};
use crate::error::{DecodeError, EnumKind};
use crate::model::{wf_attrs, wf_nodes, wf_patches, AttrG, MessageG, NodeG, PatchG};
use crate::patch::{
    event_code, event_from_code, message_code, message_from_code, node_code, node_from_code,
    patch_code, patch_from_code, subscription_code, subscription_from_code, EventSubscription,
    EventType, MessageType, NodeType, PatchType,
};
use crate::wire::{
    dec_attr, dec_attrs, dec_element_name, dec_event, dec_event_type, dec_ids, dec_msg, dec_node_entry, dec_nodes, dec_patch_entry, dec_patch_header, dec_patches, dec_str,
    dec_subscription, dec_u32, dec_u64, dec_u8, enc_attr, enc_attrs, enc_event, enc_ids, enc_msg,
    enc_node, enc_nodes, enc_patch, enc_patches, enc_str, enc_u32, enc_u64, patch_kind,
    patch_target, u32_from_be, u64_from_be, LIST_END,
};

verus! {

/// Splitting a concatenation at the first part's length yields the parts.
proof fn lemma_split(a: Seq<u8>, b: Seq<u8>)
    ensures
        (a + b).len() == a.len() + b.len(),
        (a + b).skip(a.len() as int) == b,
        (a + b).take(a.len() as int) == a,
{
    assert((a + b).skip(a.len() as int) =~= b);
    assert((a + b).take(a.len() as int) =~= a);
}

/// Skipping past the first part of a concatenation skips into the second.
proof fn lemma_skip_add(a: Seq<u8>, b: Seq<u8>, n: int)
    requires
        a.len() <= n <= a.len() + b.len(),
    ensures
        (a + b).skip(n) == b.skip(n - a.len()),
{
    assert((a + b).skip(n) =~= b.skip(n - a.len()));
}

/// Sequence concatenation is associative.
proof fn lemma_add_assoc(a: Seq<u8>, b: Seq<u8>, c: Seq<u8>)
    ensures
        (a + b) + c == a + (b + c),
{
    assert((a + b) + c =~= a + (b + c));
}

/// An encoded attribute occupies at least its tag byte.
proof fn lemma_enc_attr_len(a: AttrG)
    ensures
        enc_attr(a).len() >= 1,
{
    match a {
        AttrG::Class(b) => {},
        AttrG::Style(k, v) => {},
        AttrG::Event(t, u) => {},
    }
}

/// An encoded node occupies at least its tag and id bytes.
proof fn lemma_enc_node_len(n: NodeG)
    ensures
        enc_node(n).len() >= 9,
{
    match n {
        NodeG::Element { id, name, attrs, children } => {},
        NodeG::Text { id, text } => {},
    }
}

/// An encoded patch occupies at least its tag and target-id bytes.
proof fn lemma_enc_patch_len(p: PatchG)
    ensures
        enc_patch(p).len() >= 9,
{
}

/// An encoded id list occupies eight bytes for each id.
proof fn lemma_enc_ids_len(ids: Seq<u64>)
    ensures
        enc_ids(ids).len() == 8 * ids.len(),
    decreases ids.len(),
{
    if ids.len() > 0 {
        lemma_enc_ids_len(ids.drop_first());
    }
}

/// Reading eight big-endian bytes undoes writing them.
proof fn lemma_rt_u64(v: u64, rest: Seq<u8>)
    ensures
        dec_u64(enc_u64(v) + rest) == Ok::<(u64, int), DecodeError>((v, 8)),
{
    reveal(u64_from_be);
    let s = enc_u64(v) + rest;
    assert(s.len() >= 8);
    assert(s.take(8) =~= enc_u64(v));
    assert(((((v >> 56) & 0xFF) as u8 as u64) << 56) | ((((v >> 48) & 0xFF) as u8 as u64) << 48)
        | ((((v >> 40) & 0xFF) as u8 as u64) << 40) | ((((v >> 32) & 0xFF) as u8 as u64) << 32) | (
    (((v >> 24) & 0xFF) as u8 as u64) << 24) | ((((v >> 16) & 0xFF) as u8 as u64) << 16) | ((((v
        >> 8) & 0xFF) as u8 as u64) << 8) | ((v & 0xFF) as u8 as u64) == v) by (bit_vector);
    assert(u64_from_be(enc_u64(v)) == v);
}

/// Reading four big-endian bytes undoes writing them.
proof fn lemma_rt_u32(v: u32, rest: Seq<u8>)
    ensures
        dec_u32(enc_u32(v) + rest) == Ok::<(u32, int), DecodeError>((v, 4)),
{
    reveal(u32_from_be);
    let s = enc_u32(v) + rest;
    assert(s.len() >= 4);
    assert(s.take(4) =~= enc_u32(v));
    assert(((((v >> 24) & 0xFF) as u8 as u32) << 24) | ((((v >> 16) & 0xFF) as u8 as u32) << 16)
        | ((((v >> 8) & 0xFF) as u8 as u32) << 8) | ((v & 0xFF) as u8 as u32) == v)
        by (bit_vector);
    assert(u32_from_be(enc_u32(v)) == v);
}

/// Reading a string frame undoes writing one, for any well-formed body.
proof fn lemma_rt_str(b: Seq<u8>, rest: Seq<u8>)
    requires
        wf_string(b),
    ensures
        dec_str(enc_str(b) + rest) == Ok::<(Seq<u8>, int), DecodeError>((b, 4 + b.len() as int)),
{
    let len32 = b.len() as u32;
    let s = enc_str(b) + rest;
    lemma_add_assoc(enc_u32(len32), b, rest);
    assert(s == enc_u32(len32) + (b + rest));
    lemma_rt_u32(len32, b + rest);
    assert(len32 as int == b.len() as int);
    assert(s.len() - 4 >= len32 as int);
    assert(s.subrange(4, 4 + len32 as int) =~= b);
}

/// Reading a class attribute undoes writing one.
#[verifier::rlimit(100)]
#[verifier::spinoff_prover]
proof fn lemma_rt_attr_class(b: Seq<u8>, rest: Seq<u8>)
    requires
        wf_string(b),
    ensures
        dec_attr((seq![0u8] + enc_str(b)) + rest) == Ok::<(Option<AttrG>, int), DecodeError>(
            (Some(AttrG::Class(b)), 5 + b.len() as int),
        ),
{
    let s = (seq![0u8] + enc_str(b)) + rest;
    lemma_add_assoc(seq![0u8], enc_str(b), rest);
    assert(s[0] == 0);
    lemma_split(seq![0u8], enc_str(b) + rest);
    lemma_rt_str(b, rest);
}

/// Reading a style attribute undoes writing one.
#[verifier::rlimit(100)]
#[verifier::spinoff_prover]
proof fn lemma_rt_attr_style(k: Seq<u8>, v: Seq<u8>, rest: Seq<u8>)
    requires
        wf_string(k),
        wf_string(v),
    ensures
        dec_attr((seq![1u8] + enc_str(k) + enc_str(v)) + rest) == Ok::<
            (Option<AttrG>, int),
            DecodeError,
        >((Some(AttrG::Style(k, v)), 9 + k.len() + v.len() as int)),
{
    let s = (seq![1u8] + enc_str(k) + enc_str(v)) + rest;
    let fk = enc_str(k);
    let fv = enc_str(v);
    lemma_add_assoc(seq![1u8] + fk, fv, rest);
    lemma_add_assoc(seq![1u8], fk, fv + rest);
    assert(s == seq![1u8] + (fk + (fv + rest)));
    assert(s[0] == 1);
    lemma_split(seq![1u8], fk + (fv + rest));
    lemma_rt_str(k, fv + rest);
    let k1 = 4 + k.len() as int;
    assert(fk.len() == k1);
    lemma_split((seq![1u8] + fk), fv + rest);
    assert(s == (seq![1u8] + fk) + (fv + rest));
    assert(s.skip(1 + k1) == fv + rest);
    lemma_rt_str(v, rest);
    assert(dec_u8(s) == Ok::<(u8, int), DecodeError>((1u8, 1)));
    assert(dec_str(s.skip(1)) == Ok::<(Seq<u8>, int), DecodeError>((k, k1)));
    assert(dec_str(s.skip(1 + k1)) == Ok::<(Seq<u8>, int), DecodeError>((v, 4 + v.len() as int)));
}

/// Reading an event attribute undoes writing one.
#[verifier::rlimit(100)]
proof fn lemma_rt_attr_event(t: EventType, u: EventSubscription, rest: Seq<u8>)
    ensures
        dec_attr(seq![2u8, event_code(t), subscription_code(u)] + rest) == Ok::<
            (Option<AttrG>, int),
            DecodeError,
        >((Some(AttrG::Event(t, u)), 3)),
{
    let s = seq![2u8, event_code(t), subscription_code(u)] + rest;
    assert(s[0] == 2);
    assert(s.skip(1) =~= seq![event_code(t), subscription_code(u)] + rest);
    assert(s.skip(1)[0] == event_code(t));
    assert(event_from_code(event_code(t)) == Some(t));
    assert(s.skip(2) =~= seq![subscription_code(u)] + rest);
    assert(s.skip(2)[0] == subscription_code(u));
    assert(subscription_from_code(subscription_code(u)) == Some(u));
}

/// Reading an attribute record undoes writing one.
#[verifier::rlimit(100)]
#[verifier::spinoff_prover]
proof fn lemma_rt_attr(a: AttrG, rest: Seq<u8>)
    requires
        a.wf(),
    ensures
        dec_attr(enc_attr(a) + rest) == Ok::<(Option<AttrG>, int), DecodeError>(
            (Some(a), enc_attr(a).len() as int),
        ),
{
    match a {
        AttrG::Class(b) => {
            lemma_rt_attr_class(b, rest);
            assert(enc_attr(a).len() == 5 + b.len());
        },
        AttrG::Style(k, v) => {
            lemma_rt_attr_style(k, v, rest);
            assert(enc_attr(a).len() == 9 + k.len() + v.len());
        },
        AttrG::Event(t, u) => {
            lemma_rt_attr_event(t, u, rest);
            assert(enc_attr(a).len() == 3);
        },
    }
}

/// Reading an attribute list undoes writing one.
#[verifier::rlimit(100)]
#[verifier::spinoff_prover]
proof fn lemma_rt_attrs(attrs: Seq<AttrG>, rest: Seq<u8>)
    requires
        wf_attrs(attrs),
    ensures
        dec_attrs(enc_attrs(attrs) + rest) == Ok::<(Seq<AttrG>, int), DecodeError>(
            (attrs, enc_attrs(attrs).len() as int),
        ),
    decreases attrs.len(),
{
    let s = enc_attrs(attrs) + rest;
    if attrs.len() == 0 {
        assert(s[0] == LIST_END);
        assert(attrs =~= Seq::<AttrG>::empty());
    } else {
        let a0 = attrs[0];
        let tail = attrs.drop_first();
        assert(a0.wf());
        assert forall|i: int| 0 <= i < tail.len() implies (#[trigger] tail[i]).wf() by {
            assert(tail[i] == attrs[i + 1]);
        }
        lemma_add_assoc(enc_attr(a0), enc_attrs(tail), rest);
        lemma_rt_attr(a0, enc_attrs(tail) + rest);
        lemma_enc_attr_len(a0);
        let k0 = enc_attr(a0).len() as int;
        lemma_split(enc_attr(a0), enc_attrs(tail) + rest);
        assert(s.skip(k0) == enc_attrs(tail) + rest);
        lemma_rt_attrs(tail, rest);
        assert(seq![a0] + tail =~= attrs);
    }
}

/// Reading a node undoes writing one.
#[verifier::rlimit(100)]
#[verifier::spinoff_prover]
proof fn lemma_rt_node(n: NodeG, rest: Seq<u8>)
    requires
        n.wf(),
    ensures
        dec_node_entry(enc_node(n) + rest) == Ok::<(Option<NodeG>, int), DecodeError>(
            (Some(n), enc_node(n).len() as int),
        ),
    decreases n, 0int,
{
    let s = enc_node(n) + rest;
    match n {
        NodeG::Element { id, name, attrs, children } => {
            let u = enc_u64(id);
            let e = seq![element_code(name)];
            let a = enc_attrs(attrs);
            let c = enc_nodes(children);
            let x1 = seq![0u8] + u;
            let x2 = x1 + e;
            let x3 = x2 + a;
            lemma_add_assoc(x3, c, rest);
            lemma_add_assoc(x2, a, c + rest);
            lemma_add_assoc(x1, e, a + (c + rest));
            lemma_add_assoc(seq![0u8], u, e + (a + (c + rest)));
            assert(s == seq![0u8] + (u + (e + (a + (c + rest)))));
            assert(s[0] == 0);
            lemma_split(seq![0u8], u + (e + (a + (c + rest))));
            lemma_rt_u64(id, e + (a + (c + rest)));
            assert(s == x1 + (e + (a + (c + rest))));
            lemma_split(x1, e + (a + (c + rest)));
            assert(s.skip(9) == e + (a + (c + rest)));
            assert(s.skip(9)[0] == element_code(name));
            lemma_element_code_inverse(name);
            assert(s == x2 + (a + (c + rest)));
            lemma_split(x2, a + (c + rest));
            assert(s.skip(10) == a + (c + rest));
            lemma_rt_attrs(attrs, c + rest);
            let ka = a.len() as int;
            assert(s == x3 + (c + rest));
            lemma_split(x3, c + rest);
            assert(s.skip(10 + ka) == c + rest);
            lemma_rt_nodes(children, rest);
            assert(enc_node(n).len() == 10 + ka + c.len());
        },
        NodeG::Text { id, text } => {
            let u = enc_u64(id);
            let f = enc_str(text);
            lemma_add_assoc(seq![1u8] + u, f, rest);
            lemma_add_assoc(seq![1u8], u, f + rest);
            assert(s == seq![1u8] + (u + (f + rest)));
            assert(s[0] == 1);
            lemma_split(seq![1u8], u + (f + rest));
            lemma_rt_u64(id, f + rest);
            assert(s == (seq![1u8] + u) + (f + rest));
            lemma_split(seq![1u8] + u, f + rest);
            assert(s.skip(9) == f + rest);
            lemma_rt_str(text, rest);
            assert(enc_node(n).len() == 9 + f.len());
        },
    }
}

/// Reading a node list undoes writing one.
#[verifier::rlimit(100)]
#[verifier::spinoff_prover]
proof fn lemma_rt_nodes(nodes: Seq<NodeG>, rest: Seq<u8>)
    requires
        wf_nodes(nodes),
    ensures
        dec_nodes(enc_nodes(nodes) + rest) == Ok::<(Seq<NodeG>, int), DecodeError>(
            (nodes, enc_nodes(nodes).len() as int),
        ),
    decreases nodes, 1int,
{
    let s = enc_nodes(nodes) + rest;
    if nodes.len() == 0 {
        assert(s[0] == LIST_END);
        assert(dec_node_entry(s) == Ok::<(Option<NodeG>, int), DecodeError>((None::<NodeG>, 1int)));
        assert(dec_nodes(s) == Ok::<(Seq<NodeG>, int), DecodeError>((Seq::<NodeG>::empty(), 1int)));
        assert(nodes =~= Seq::<NodeG>::empty());
    } else {
        let n0 = nodes[0];
        let tail = nodes.drop_first();
        assert(n0.wf() && wf_nodes(tail));
        lemma_add_assoc(enc_node(n0), enc_nodes(tail), rest);
        lemma_rt_node(n0, enc_nodes(tail) + rest);
        lemma_enc_node_len(n0);
        let k0 = enc_node(n0).len() as int;
        assert(dec_node_entry(s) == Ok::<(Option<NodeG>, int), DecodeError>((Some(n0), k0)));
        lemma_split(enc_node(n0), enc_nodes(tail) + rest);
        assert(s.skip(k0) == enc_nodes(tail) + rest);
        lemma_rt_nodes(tail, rest);
        let k2 = enc_nodes(tail).len() as int;
        assert(dec_nodes(s.skip(k0)) == Ok::<(Seq<NodeG>, int), DecodeError>((tail, k2)));
        assert(1 <= k0 && k0 <= s.len());
        assert(dec_nodes(s) == Ok::<(Seq<NodeG>, int), DecodeError>((seq![n0] + tail, k0 + k2)));
        assert(enc_nodes(nodes).len() == k0 + k2);
        assert(seq![n0] + tail == nodes) by {
            assert(seq![n0] + tail =~= nodes);
        }
    }
}

/// Reading a patch record undoes writing one.
#[verifier::rlimit(100)]
#[verifier::spinoff_prover]
proof fn lemma_rt_patch(p: PatchG, rest: Seq<u8>)
    requires
        p.wf(),
    ensures
        dec_patch_entry(enc_patch(p) + rest) == Ok::<(Option<PatchG>, int), DecodeError>(
            (Some(p), enc_patch(p).len() as int),
        ),
{
    let s = enc_patch(p) + rest;
    let tag = seq![patch_code(patch_kind(p))];
    let u = enc_u64(patch_target(p));
    let body = match p {
        PatchG::Replace(_, nodes) => enc_nodes(nodes),
        PatchG::ModifyAttrs(_, attrs) => enc_attrs(attrs),
        PatchG::Remove(_, nodes) => enc_nodes(nodes),
        PatchG::Append(_, nodes) => enc_nodes(nodes),
        PatchG::AppendMultiple(_, nodes) => enc_nodes(nodes),
    };
    lemma_add_assoc(tag + u, body, rest);
    lemma_add_assoc(tag, u, body + rest);
    assert(s == tag + (u + (body + rest)));
    assert(s[0] == patch_code(patch_kind(p)));
    assert(patch_from_code(patch_code(patch_kind(p))) == Some(patch_kind(p)));
    lemma_split(tag, u + (body + rest));
    lemma_rt_u64(patch_target(p), body + rest);
    assert(s == (tag + u) + (body + rest));
    lemma_split(tag + u, body + rest);
    assert(s.skip(9) == body + rest);
    match p {
        PatchG::Replace(_, nodes) => lemma_rt_nodes(nodes, rest),
        PatchG::ModifyAttrs(_, attrs) => lemma_rt_attrs(attrs, rest),
        PatchG::Remove(_, nodes) => lemma_rt_nodes(nodes, rest),
        PatchG::Append(_, nodes) => lemma_rt_nodes(nodes, rest),
        PatchG::AppendMultiple(_, nodes) => lemma_rt_nodes(nodes, rest),
    }
    assert(enc_patch(p).len() == 9 + body.len());
}

/// Reading a patch list undoes writing one.
#[verifier::rlimit(100)]
#[verifier::spinoff_prover]
proof fn lemma_rt_patches(patches: Seq<PatchG>, rest: Seq<u8>)
    requires
        wf_patches(patches),
    ensures
        dec_patches(enc_patches(patches) + rest) == Ok::<(Seq<PatchG>, int), DecodeError>(
            (patches, enc_patches(patches).len() as int),
        ),
    decreases patches.len(),
{
    let s = enc_patches(patches) + rest;
    if patches.len() == 0 {
        assert(s[0] == LIST_END);
        assert(patches =~= Seq::<PatchG>::empty());
    } else {
        let p0 = patches[0];
        let tail = patches.drop_first();
        assert(p0.wf());
        assert forall|i: int| 0 <= i < tail.len() implies (#[trigger] tail[i]).wf() by {
            assert(tail[i] == patches[i + 1]);
        }
        lemma_add_assoc(enc_patch(p0), enc_patches(tail), rest);
        lemma_rt_patch(p0, enc_patches(tail) + rest);
        lemma_enc_patch_len(p0);
        let k0 = enc_patch(p0).len() as int;
        lemma_split(enc_patch(p0), enc_patches(tail) + rest);
        assert(s.skip(k0) == enc_patches(tail) + rest);
        lemma_rt_patches(tail, rest);
        assert(seq![p0] + tail =~= patches);
    }
}

/// Reading a fixed count of ids undoes writing them.
proof fn lemma_rt_ids(ids: Seq<u64>, rest: Seq<u8>)
    ensures
        dec_ids(enc_ids(ids) + rest, ids.len() as int) == Ok::<(Seq<u64>, int), DecodeError>(
            (ids, 8 * ids.len() as int),
        ),
    decreases ids.len(),
{
    let s = enc_ids(ids) + rest;
    if ids.len() == 0 {
        assert(ids =~= Seq::<u64>::empty());
    } else {
        let i0 = ids[0];
        let tail = ids.drop_first();
        lemma_add_assoc(enc_u64(i0), enc_ids(tail), rest);
        lemma_rt_u64(i0, enc_ids(tail) + rest);
        lemma_split(enc_u64(i0), enc_ids(tail) + rest);
        assert(s.skip(8) == enc_ids(tail) + rest);
        lemma_rt_ids(tail, rest);
        assert(seq![i0] + tail =~= ids);
    }
}

/// Reading an event undoes writing one.
#[verifier::rlimit(100)]
#[verifier::spinoff_prover]
proof fn lemma_rt_event(t: EventType, u: EventSubscription, ids: Seq<u64>, rest: Seq<u8>)
    requires
        ids.len() <= 0xFFFF_FFFF,
    ensures
        dec_event(enc_event(t, u, ids) + rest) == Ok::<
            ((EventType, EventSubscription, Seq<u64>), int),
            DecodeError,
        >(((t, u, ids), enc_event(t, u, ids).len() as int)),
{
    let s = enc_event(t, u, ids) + rest;
    let hd = seq![event_code(t), subscription_code(u)];
    let len32 = ids.len() as u32;
    let cnt = enc_u32(len32);
    let body = enc_ids(ids);
    lemma_add_assoc(hd + cnt, body, rest);
    lemma_add_assoc(hd, cnt, body + rest);
    assert(s == hd + (cnt + (body + rest)));
    assert(s[0] == event_code(t));
    assert(event_from_code(event_code(t)) == Some(t));
    assert(s.skip(1) =~= seq![subscription_code(u)] + (cnt + (body + rest)));
    assert(s.skip(1)[0] == subscription_code(u));
    assert(subscription_from_code(subscription_code(u)) == Some(u));
    lemma_split(hd, cnt + (body + rest));
    assert(s.skip(2) == cnt + (body + rest));
    lemma_rt_u32(len32, body + rest);
    assert(len32 as int == ids.len() as int);
    assert(s == (hd + cnt) + (body + rest));
    lemma_split(hd + cnt, body + rest);
    assert(s.skip(6) == body + rest);
    lemma_rt_ids(ids, rest);
    lemma_enc_ids_len(ids);
    assert(enc_event(t, u, ids).len() == 6 + body.len());
}

/// Round-trip law: decoding an encoded message yields exactly that message
/// back and consumes exactly the encoding's bytes, whatever follows them.
#[verifier::rlimit(100)]
#[verifier::spinoff_prover]
pub proof fn lemma_round_trip(m: MessageG, rest: Seq<u8>)
    requires
        m.wf(),
    ensures
        dec_msg(enc_msg(m) + rest) == Ok::<(MessageG, int), DecodeError>(
            (m, enc_msg(m).len() as int),
        ),
{
    let s = enc_msg(m) + rest;
    match m {
        MessageG::Patch(patches) => {
            lemma_add_assoc(seq![0u8], enc_patches(patches), rest);
            assert(s[0] == 0);
            lemma_split(seq![0u8], enc_patches(patches) + rest);
            lemma_rt_patches(patches, rest);
        },
        MessageG::Event(t, u, ids) => {
            lemma_add_assoc(seq![1u8], enc_event(t, u, ids), rest);
            assert(s[0] == 1);
            lemma_split(seq![1u8], enc_event(t, u, ids) + rest);
            lemma_rt_event(t, u, ids, rest);
        },
        MessageG::EventAck => {
            assert(s[0] == 2);
        },
    }
}

/// Sentinel safety: no enumeration's wire code is the list sentinel, so no
/// valid tag can be mistaken for the end of a list. Out-of-range values of
/// the enumerations themselves cannot be constructed at all: every
/// enumeration is a closed set of variants.
pub proof fn lemma_sentinel_safety()
    ensures
        forall|t: MessageType| message_code(t) != LIST_END,
        forall|t: PatchType| patch_code(t) != LIST_END,
        forall|t: EventType| event_code(t) != LIST_END,
        forall|u: EventSubscription| subscription_code(u) != LIST_END,
        forall|t: NodeType| node_code(t) != LIST_END,
        forall|n: ElementName| element_code(n) != LIST_END,
{
    assert forall|n: ElementName| element_code(n) != LIST_END by {
        lemma_element_code_not_sentinel(n);
    }
}

/// A string frame whose declared length is available in full but whose
/// bytes are not valid UTF-8 is rejected with exactly `InvalidUtf8`.
pub proof fn lemma_utf8_rejection(b: Seq<u8>, rest: Seq<u8>)
    requires
        !is_utf8(b),
        b.len() <= 0xFFFF_FFFF,
    ensures
        dec_str(enc_str(b) + rest) == Err::<(Seq<u8>, int), DecodeError>(
            DecodeError::InvalidUtf8,
        ),
{
    let len32 = b.len() as u32;
    let s = enc_str(b) + rest;
    lemma_add_assoc(enc_u32(len32), b, rest);
    assert(s == enc_u32(len32) + (b + rest));
    lemma_rt_u32(len32, b + rest);
    assert(s.subrange(4, 4 + len32 as int) =~= b);
}

/// Discriminant rejection: at every tag position, a byte that maps to no
/// variant of the expected enumeration (and is not the sentinel where the
/// sentinel is meaningful) fails the decoder with `InvalidDiscriminant`,
/// carrying the byte and the enumeration kind. At the message-type
/// position the sentinel has no meaning, so even `255` is rejected there.
pub proof fn lemma_discriminant_rejection(b: u8, rest: Seq<u8>)
    ensures
        message_from_code(b) is None ==> dec_msg(seq![b] + rest) == Err::<
            (MessageG, int),
            DecodeError,
        >(DecodeError::InvalidDiscriminant(b, EnumKind::Message)),
        b != LIST_END && patch_from_code(b) is None ==> dec_patch_header(seq![b] + rest)
            == Err::<(Option<(PatchType, u64)>, int), DecodeError>(
            DecodeError::InvalidDiscriminant(b, EnumKind::Patch),
        ),
        b != LIST_END && node_from_code(b) is None ==> dec_node_entry(seq![b] + rest) == Err::<
            (Option<NodeG>, int),
            DecodeError,
        >(DecodeError::InvalidDiscriminant(b, EnumKind::Node)),
        b != LIST_END && b != 0 && b != 1 && b != 2 ==> dec_attr(seq![b] + rest) == Err::<
            (Option<AttrG>, int),
            DecodeError,
        >(DecodeError::InvalidDiscriminant(b, EnumKind::Attribute)),
        element_from_code(b) is None ==> dec_element_name(seq![b] + rest) == Err::<
            (ElementName, int),
            DecodeError,
        >(DecodeError::InvalidDiscriminant(b, EnumKind::Element)),
        event_from_code(b) is None ==> dec_event_type(seq![b] + rest) == Err::<
            (EventType, int),
            DecodeError,
        >(DecodeError::InvalidDiscriminant(b, EnumKind::Event)),
        subscription_from_code(b) is None ==> dec_subscription(seq![b] + rest) == Err::<
            (EventSubscription, int),
            DecodeError,
        >(DecodeError::InvalidDiscriminant(b, EnumKind::Subscription)),
{
    assert((seq![b] + rest)[0] == b);
}

/// An acknowledgement encodes to exactly one byte, and decoding consumes
/// exactly that byte, whatever follows it.
pub proof fn lemma_event_ack_one_byte(rest: Seq<u8>)
    ensures
        enc_msg(MessageG::EventAck).len() == 1,
        dec_msg(enc_msg(MessageG::EventAck) + rest) == Ok::<(MessageG, int), DecodeError>(
            (MessageG::EventAck, 1),
        ),
{
    lemma_round_trip(MessageG::EventAck, rest);
}

/// A prefix of a concatenation is a prefix of the first part, or the whole
/// first part followed by a prefix of the second.
proof fn lemma_take_add(a: Seq<u8>, b: Seq<u8>, k: int)
    requires
        0 <= k <= a.len() + b.len(),
    ensures
        k <= a.len() ==> (a + b).take(k) == a.take(k),
        k >= a.len() ==> (a + b).take(k) == a + b.take(k - a.len()),
{
    if k <= a.len() {
        assert((a + b).take(k) =~= a.take(k));
    }
    if k >= a.len() {
        assert((a + b).take(k) =~= a + b.take(k - a.len()));
    }
}

/// Decoding a strict prefix of a string frame reports truncation.
proof fn lemma_tr_str(b: Seq<u8>, k: int)
    requires
        wf_string(b),
        0 <= k < enc_str(b).len(),
    ensures
        dec_str(enc_str(b).take(k)) == Err::<(Seq<u8>, int), DecodeError>(
            DecodeError::TruncatedStream,
        ),
{
    let len32 = b.len() as u32;
    let t = enc_str(b).take(k);
    lemma_take_add(enc_u32(len32), b, k);
    if k < 4 {
        assert(t.len() < 4);
    } else {
        assert(t == enc_u32(len32) + b.take(k - 4));
        lemma_rt_u32(len32, b.take(k - 4));
        assert(t.len() - 4 < len32 as int);
    }
}

/// Decoding a strict prefix of an attribute record reports truncation.
#[verifier::rlimit(100)]
#[verifier::spinoff_prover]
proof fn lemma_tr_attr(a: AttrG, k: int)
    requires
        a.wf(),
        0 <= k < enc_attr(a).len(),
    ensures
        dec_attr(enc_attr(a).take(k)) == Err::<(Option<AttrG>, int), DecodeError>(
            DecodeError::TruncatedStream,
        ),
{
    let t = enc_attr(a).take(k);
    match a {
        AttrG::Class(b) => {
            lemma_take_add(seq![0u8], enc_str(b), k);
            if k == 0 {
                assert(t.len() == 0);
            } else {
                assert(t == seq![0u8] + enc_str(b).take(k - 1));
                assert(t[0] == 0);
                lemma_split(seq![0u8], enc_str(b).take(k - 1));
                lemma_tr_str(b, k - 1);
            }
        },
        AttrG::Style(x, y) => {
            let fx = enc_str(x);
            let fy = enc_str(y);
            lemma_add_assoc(seq![1u8], fx, fy);
            assert(enc_attr(a) == seq![1u8] + (fx + fy));
            lemma_take_add(seq![1u8], fx + fy, k);
            if k == 0 {
                assert(t.len() == 0);
            } else {
                let k1 = k - 1;
                assert(t == seq![1u8] + (fx + fy).take(k1));
                assert(t[0] == 1);
                lemma_split(seq![1u8], (fx + fy).take(k1));
                lemma_take_add(fx, fy, k1);
                if k1 < fx.len() {
                    lemma_tr_str(x, k1);
                } else {
                    let k2 = k1 - fx.len();
                    assert(t.skip(1) == fx + fy.take(k2));
                    lemma_rt_str(x, fy.take(k2));
                    assert(t =~= (seq![1u8] + fx) + fy.take(k2));
                    lemma_split(seq![1u8] + fx, fy.take(k2));
                    assert(t.skip(1 + fx.len() as int) == fy.take(k2));
                    lemma_tr_str(y, k2);
                }
            }
        },
        AttrG::Event(ty, sub) => {
            if k == 0 {
                assert(t.len() == 0);
            } else if k == 1 {
                assert(t =~= seq![2u8]);
                assert(t[0] == 2);
                assert(t.skip(1) =~= Seq::<u8>::empty());
            } else {
                assert(k == 2);
                assert(t =~= seq![2u8, event_code(ty)]);
                assert(t[0] == 2);
                assert(t.skip(1) =~= seq![event_code(ty)]);
                assert(t.skip(1)[0] == event_code(ty));
                assert(event_from_code(event_code(ty)) == Some(ty));
                assert(t.skip(2) =~= Seq::<u8>::empty());
            }
        },
    }
}

/// Decoding a strict prefix of an attribute list reports truncation.
#[verifier::rlimit(100)]
#[verifier::spinoff_prover]
proof fn lemma_tr_attrs(attrs: Seq<AttrG>, k: int)
    requires
        wf_attrs(attrs),
        0 <= k < enc_attrs(attrs).len(),
    ensures
        dec_attrs(enc_attrs(attrs).take(k)) == Err::<(Seq<AttrG>, int), DecodeError>(
            DecodeError::TruncatedStream,
        ),
    decreases attrs.len(),
{
    let t = enc_attrs(attrs).take(k);
    if attrs.len() == 0 {
        assert(t.len() == 0);
    } else {
        let a0 = attrs[0];
        let tail = attrs.drop_first();
        assert(a0.wf());
        assert forall|i: int| 0 <= i < tail.len() implies (#[trigger] tail[i]).wf() by {
            assert(tail[i] == attrs[i + 1]);
        }
        let e0 = enc_attr(a0);
        let er = enc_attrs(tail);
        lemma_enc_attr_len(a0);
        lemma_take_add(e0, er, k);
        if k < e0.len() {
            lemma_tr_attr(a0, k);
        } else {
            let k2 = k - e0.len();
            assert(t == e0 + er.take(k2));
            lemma_rt_attr(a0, er.take(k2));
            lemma_split(e0, er.take(k2));
            assert(t.skip(e0.len() as int) == er.take(k2));
            lemma_tr_attrs(tail, k2);
        }
    }
}

/// Decoding a strict prefix of a node reports truncation.
#[verifier::rlimit(100)]
#[verifier::spinoff_prover]
proof fn lemma_tr_node(n: NodeG, k: int)
    requires
        n.wf(),
        0 <= k < enc_node(n).len(),
    ensures
        dec_node_entry(enc_node(n).take(k)) == Err::<(Option<NodeG>, int), DecodeError>(
            DecodeError::TruncatedStream,
        ),
    decreases n, 0int,
{
    let t = enc_node(n).take(k);
    match n {
        NodeG::Element { id, name, attrs, children } => {
            let u = enc_u64(id);
            let e1 = seq![element_code(name)];
            let a = enc_attrs(attrs);
            let c = enc_nodes(children);
            let x1 = seq![0u8] + u;
            let x2 = x1 + e1;
            let x3 = x2 + a;
            lemma_add_assoc(x2, a, c);
            lemma_add_assoc(x1, e1, a + c);
            lemma_add_assoc(seq![0u8], u, e1 + (a + c));
            assert(enc_node(n) =~= seq![0u8] + (u + (e1 + (a + c))));
            if k == 0 {
                assert(t.len() == 0);
            } else if k < 9 {
                lemma_take_add(seq![0u8], u + (e1 + (a + c)), k);
                assert(t == seq![0u8] + (u + (e1 + (a + c))).take(k - 1));
                assert(t[0] == 0);
                lemma_split(seq![0u8], (u + (e1 + (a + c))).take(k - 1));
                assert(t.skip(1).len() < 8);
            } else {
                assert(enc_node(n) =~= x1 + (e1 + (a + c)));
                lemma_take_add(x1, e1 + (a + c), k);
                let restk = (e1 + (a + c)).take(k - 9);
                assert(t == x1 + restk);
                lemma_add_assoc(seq![0u8], u, restk);
                assert(t == seq![0u8] + (u + restk));
                assert(t[0] == 0);
                lemma_split(seq![0u8], u + restk);
                lemma_rt_u64(id, restk);
                lemma_split(x1, restk);
                assert(t.skip(9) == restk);
                if k == 9 {
                    assert(restk.len() == 0);
                } else {
                    lemma_take_add(e1, a + c, k - 9);
                    assert(restk == e1 + (a + c).take(k - 10));
                    assert(t.skip(9)[0] == element_code(name));
                    lemma_element_code_inverse(name);
                    assert(t =~= x2 + (a + c).take(k - 10));
                    lemma_split(x2, (a + c).take(k - 10));
                    assert(t.skip(10) == (a + c).take(k - 10));
                    lemma_take_add(a, c, k - 10);
                    if k - 10 < a.len() {
                        lemma_tr_attrs(attrs, k - 10);
                    } else {
                        let kc = k - 10 - a.len();
                        assert(t.skip(10) == a + c.take(kc));
                        lemma_rt_attrs(attrs, c.take(kc));
                        assert(t =~= x3 + c.take(kc));
                        lemma_split(x3, c.take(kc));
                        assert(t.skip(10 + a.len() as int) == c.take(kc));
                        lemma_tr_nodes(children, kc);
                    }
                }
            }
        },
        NodeG::Text { id, text } => {
            let u = enc_u64(id);
            let f = enc_str(text);
            let x1 = seq![1u8] + u;
            lemma_add_assoc(seq![1u8], u, f);
            assert(enc_node(n) =~= seq![1u8] + (u + f));
            if k == 0 {
                assert(t.len() == 0);
            } else if k < 9 {
                lemma_take_add(seq![1u8], u + f, k);
                assert(t == seq![1u8] + (u + f).take(k - 1));
                assert(t[0] == 1);
                lemma_split(seq![1u8], (u + f).take(k - 1));
                assert(t.skip(1).len() < 8);
            } else {
                assert(enc_node(n) =~= x1 + f);
                lemma_take_add(x1, f, k);
                let restk = f.take(k - 9);
                assert(t == x1 + restk);
                lemma_add_assoc(seq![1u8], u, restk);
                assert(t == seq![1u8] + (u + restk));
                assert(t[0] == 1);
                lemma_split(seq![1u8], u + restk);
                lemma_rt_u64(id, restk);
                lemma_split(x1, restk);
                assert(t.skip(9) == restk);
                lemma_tr_str(text, k - 9);
            }
        },
    }
}

/// Decoding a strict prefix of a node list reports truncation.
#[verifier::rlimit(100)]
#[verifier::spinoff_prover]
proof fn lemma_tr_nodes(nodes: Seq<NodeG>, k: int)
    requires
        wf_nodes(nodes),
        0 <= k < enc_nodes(nodes).len(),
    ensures
        dec_nodes(enc_nodes(nodes).take(k)) == Err::<(Seq<NodeG>, int), DecodeError>(
            DecodeError::TruncatedStream,
        ),
    decreases nodes, 1int,
{
    let t = enc_nodes(nodes).take(k);
    if nodes.len() == 0 {
        assert(t.len() == 0);
        assert(dec_node_entry(t) == Err::<(Option<NodeG>, int), DecodeError>(
            DecodeError::TruncatedStream,
        ));
    } else {
        let n0 = nodes[0];
        let tail = nodes.drop_first();
        assert(n0.wf() && wf_nodes(tail));
        let e0 = enc_node(n0);
        let er = enc_nodes(tail);
        lemma_enc_node_len(n0);
        lemma_take_add(e0, er, k);
        if k < e0.len() {
            lemma_tr_node(n0, k);
            assert(dec_node_entry(t) == Err::<(Option<NodeG>, int), DecodeError>(
                DecodeError::TruncatedStream,
            ));
        } else {
            let k2 = k - e0.len();
            assert(t == e0 + er.take(k2));
            lemma_rt_node(n0, er.take(k2));
            assert(dec_node_entry(t) == Ok::<(Option<NodeG>, int), DecodeError>(
                (Some(n0), e0.len() as int),
            ));
            assert(1 <= e0.len() <= t.len());
            lemma_split(e0, er.take(k2));
            assert(t.skip(e0.len() as int) == er.take(k2));
            lemma_tr_nodes(tail, k2);
            assert(dec_nodes(t.skip(e0.len() as int)) == Err::<(Seq<NodeG>, int), DecodeError>(
                DecodeError::TruncatedStream,
            ));
        }
    }
}

/// Decoding a strict prefix of a patch record reports truncation.
#[verifier::rlimit(100)]
#[verifier::spinoff_prover]
proof fn lemma_tr_patch(p: PatchG, k: int)
    requires
        p.wf(),
        0 <= k < enc_patch(p).len(),
    ensures
        dec_patch_entry(enc_patch(p).take(k)) == Err::<(Option<PatchG>, int), DecodeError>(
            DecodeError::TruncatedStream,
        ),
{
    let t = enc_patch(p).take(k);
    let tag = seq![patch_code(patch_kind(p))];
    let u = enc_u64(patch_target(p));
    let body = match p {
        PatchG::Replace(_, nodes) => enc_nodes(nodes),
        PatchG::ModifyAttrs(_, attrs) => enc_attrs(attrs),
        PatchG::Remove(_, nodes) => enc_nodes(nodes),
        PatchG::Append(_, nodes) => enc_nodes(nodes),
        PatchG::AppendMultiple(_, nodes) => enc_nodes(nodes),
    };
    let x1 = tag + u;
    lemma_add_assoc(tag, u, body);
    assert(enc_patch(p) =~= tag + (u + body));
    if k == 0 {
        assert(t.len() == 0);
    } else if k < 9 {
        lemma_take_add(tag, u + body, k);
        assert(t == tag + (u + body).take(k - 1));
        assert(t[0] == patch_code(patch_kind(p)));
        assert(patch_from_code(patch_code(patch_kind(p))) == Some(patch_kind(p)));
        lemma_split(tag, (u + body).take(k - 1));
        assert(t.skip(1).len() < 8);
    } else {
        assert(enc_patch(p) =~= x1 + body);
        lemma_take_add(x1, body, k);
        let restk = body.take(k - 9);
        assert(t == x1 + restk);
        lemma_add_assoc(tag, u, restk);
        assert(t == tag + (u + restk));
        assert(t[0] == patch_code(patch_kind(p)));
        assert(patch_from_code(patch_code(patch_kind(p))) == Some(patch_kind(p)));
        lemma_split(tag, u + restk);
        lemma_rt_u64(patch_target(p), restk);
        lemma_split(x1, restk);
        assert(t.skip(9) == restk);
        match p {
            PatchG::Replace(_, nodes) => lemma_tr_nodes(nodes, k - 9),
            PatchG::ModifyAttrs(_, attrs) => lemma_tr_attrs(attrs, k - 9),
            PatchG::Remove(_, nodes) => lemma_tr_nodes(nodes, k - 9),
            PatchG::Append(_, nodes) => lemma_tr_nodes(nodes, k - 9),
            PatchG::AppendMultiple(_, nodes) => lemma_tr_nodes(nodes, k - 9),
        }
    }
}

/// Decoding a strict prefix of a patch list reports truncation.
#[verifier::rlimit(100)]
#[verifier::spinoff_prover]
proof fn lemma_tr_patches(patches: Seq<PatchG>, k: int)
    requires
        wf_patches(patches),
        0 <= k < enc_patches(patches).len(),
    ensures
        dec_patches(enc_patches(patches).take(k)) == Err::<(Seq<PatchG>, int), DecodeError>(
            DecodeError::TruncatedStream,
        ),
    decreases patches.len(),
{
    let t = enc_patches(patches).take(k);
    if patches.len() == 0 {
        assert(t.len() == 0);
        assert(dec_patch_entry(t) == Err::<(Option<PatchG>, int), DecodeError>(
            DecodeError::TruncatedStream,
        ));
    } else {
        let p0 = patches[0];
        let tail = patches.drop_first();
        assert(p0.wf());
        assert forall|i: int| 0 <= i < tail.len() implies (#[trigger] tail[i]).wf() by {
            assert(tail[i] == patches[i + 1]);
        }
        let e0 = enc_patch(p0);
        let er = enc_patches(tail);
        lemma_enc_patch_len(p0);
        lemma_take_add(e0, er, k);
        if k < e0.len() {
            lemma_tr_patch(p0, k);
            assert(dec_patch_entry(t) == Err::<(Option<PatchG>, int), DecodeError>(
                DecodeError::TruncatedStream,
            ));
        } else {
            let k2 = k - e0.len();
            assert(t == e0 + er.take(k2));
            lemma_rt_patch(p0, er.take(k2));
            assert(dec_patch_entry(t) == Ok::<(Option<PatchG>, int), DecodeError>(
                (Some(p0), e0.len() as int),
            ));
            assert(1 <= e0.len() <= t.len());
            lemma_split(e0, er.take(k2));
            assert(t.skip(e0.len() as int) == er.take(k2));
            lemma_tr_patches(tail, k2);
            assert(dec_patches(t.skip(e0.len() as int)) == Err::<
                (Seq<PatchG>, int),
                DecodeError,
            >(DecodeError::TruncatedStream));
        }
    }
}

/// Decoding a strict prefix of a fixed-count id list reports truncation.
proof fn lemma_tr_ids(ids: Seq<u64>, k: int)
    requires
        0 <= k < 8 * ids.len(),
    ensures
        dec_ids(enc_ids(ids).take(k), ids.len() as int) == Err::<(Seq<u64>, int), DecodeError>(
            DecodeError::TruncatedStream,
        ),
    decreases ids.len(),
{
    let t = enc_ids(ids).take(k);
    let i0 = ids[0];
    let tail = ids.drop_first();
    let e0 = enc_u64(i0);
    let er = enc_ids(tail);
    lemma_enc_ids_len(ids);
    lemma_take_add(e0, er, k);
    if k < 8 {
        assert(t.len() < 8);
    } else {
        let k2 = k - 8;
        assert(t == e0 + er.take(k2));
        lemma_rt_u64(i0, er.take(k2));
        lemma_split(e0, er.take(k2));
        assert(t.skip(8) == er.take(k2));
        lemma_enc_ids_len(tail);
        lemma_tr_ids(tail, k2);
    }
}

/// Decoding a strict prefix of an event reports truncation.
#[verifier::rlimit(100)]
#[verifier::spinoff_prover]
proof fn lemma_tr_event(ty: EventType, sub: EventSubscription, ids: Seq<u64>, k: int)
    requires
        ids.len() <= 0xFFFF_FFFF,
        0 <= k < enc_event(ty, sub, ids).len(),
    ensures
        dec_event(enc_event(ty, sub, ids).take(k)) == Err::<
            ((EventType, EventSubscription, Seq<u64>), int),
            DecodeError,
        >(DecodeError::TruncatedStream),
{
    let t = enc_event(ty, sub, ids).take(k);
    let hd = seq![event_code(ty), subscription_code(sub)];
    let len32 = ids.len() as u32;
    let cnt = enc_u32(len32);
    let body = enc_ids(ids);
    lemma_add_assoc(hd, cnt, body);
    assert(enc_event(ty, sub, ids) =~= hd + (cnt + body));
    lemma_enc_ids_len(ids);
    if k == 0 {
        assert(t.len() == 0);
    } else if k == 1 {
        assert(t =~= seq![event_code(ty)]);
        assert(t[0] == event_code(ty));
        assert(event_from_code(event_code(ty)) == Some(ty));
        assert(t.skip(1) =~= Seq::<u8>::empty());
    } else {
        lemma_take_add(hd, cnt + body, k);
        let restk = (cnt + body).take(k - 2);
        assert(t == hd + restk);
        assert(t[0] == event_code(ty));
        assert(event_from_code(event_code(ty)) == Some(ty));
        assert(t.skip(1) =~= seq![subscription_code(sub)] + restk);
        assert(t.skip(1)[0] == subscription_code(sub));
        assert(subscription_from_code(subscription_code(sub)) == Some(sub));
        lemma_split(hd, restk);
        assert(t.skip(2) == restk);
        lemma_take_add(cnt, body, k - 2);
        if k - 2 < 4 {
            assert(restk.len() < 4);
        } else {
            let k2 = k - 6;
            assert(restk == cnt + body.take(k2));
            lemma_rt_u32(len32, body.take(k2));
            assert(t =~= (hd + cnt) + body.take(k2));
            lemma_split(hd + cnt, body.take(k2));
            assert(t.skip(6) == body.take(k2));
            assert(len32 as int == ids.len() as int);
            lemma_tr_ids(ids, k2);
        }
    }
}

/// Truncation law: decoding any strict prefix of a valid encoding reports
/// `TruncatedStream`, never a value and never another error.
#[verifier::rlimit(100)]
#[verifier::spinoff_prover]
pub proof fn lemma_truncation(m: MessageG, k: int)
    requires
        m.wf(),
        0 <= k < enc_msg(m).len(),
    ensures
        dec_msg(enc_msg(m).take(k)) == Err::<(MessageG, int), DecodeError>(
            DecodeError::TruncatedStream,
        ),
{
    let t = enc_msg(m).take(k);
    match m {
        MessageG::Patch(patches) => {
            lemma_take_add(seq![0u8], enc_patches(patches), k);
            if k == 0 {
                assert(t.len() == 0);
            } else {
                assert(t == seq![0u8] + enc_patches(patches).take(k - 1));
                assert(t[0] == 0);
                lemma_split(seq![0u8], enc_patches(patches).take(k - 1));
                lemma_tr_patches(patches, k - 1);
            }
        },
        MessageG::Event(ty, sub, ids) => {
            lemma_take_add(seq![1u8], enc_event(ty, sub, ids), k);
            if k == 0 {
                assert(t.len() == 0);
            } else {
                assert(t == seq![1u8] + enc_event(ty, sub, ids).take(k - 1));
                assert(t[0] == 1);
                lemma_split(seq![1u8], enc_event(ty, sub, ids).take(k - 1));
                lemma_tr_event(ty, sub, ids, k - 1);
            }
        },
        MessageG::EventAck => {
            assert(k == 0);
            assert(t.len() == 0);
        },
    }
}

} // verus!
