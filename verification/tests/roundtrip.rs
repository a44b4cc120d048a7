//! Round-trip behaviour of the codec on well-formed messages.

use servo_vdom_client::domstr::DomString;
use servo_vdom_client::element::ElementName;
use servo_vdom_client::model::{Message, NodeVal, PatchVal};
use servo_vdom_client::patch::{
    AttributeRef, AttributeVal, EventSubscription, EventType, MessageType,
};
use servo_vdom_client::reader::{decode, PatchReader};
use servo_vdom_client::writer::{encode, PatchWriter};
use servo_vdom_client::MESSAGE_TYPE_PATCH;

fn ds(text: &str) -> DomString {
    DomString::from_bytes(text.as_bytes().to_vec()).unwrap()
}

#[test]
fn replace_single_body_element() {
    let msg = Message::Patch(vec![PatchVal::Replace(
        1,
        vec![NodeVal::Element {
            id: 1,
            name: ElementName::Body,
            attrs: vec![],
            children: vec![],
        }],
    )]);
    let bytes = encode(&msg);
    assert_eq!(bytes.len(), 24);
    assert_eq!(bytes[0], MESSAGE_TYPE_PATCH);
    assert_eq!(bytes[1], 0); // Replace
    assert_eq!(&bytes[2..10], &[0, 0, 0, 0, 0, 0, 0, 1]); // target id
    assert_eq!(bytes[10], 0); // node type: element
    assert_eq!(&bytes[11..19], &[0, 0, 0, 0, 0, 0, 0, 1]); // node id
    assert_eq!(bytes[19], 16); // Body
    assert_eq!(&bytes[20..24], &[255, 255, 255, 255]);
    assert_eq!(decode(bytes), Ok(msg));
}

#[test]
fn element_with_class_and_text_child() {
    let node = NodeVal::Element {
        id: 200,
        name: ElementName::Div,
        attrs: vec![AttributeVal::Class(ds("container"))],
        children: vec![NodeVal::Text {
            id: 201,
            text: ds("hello"),
        }],
    };
    let mut w = PatchWriter::new();
    w.write_node(&node);
    let bytes = w.into_bytes();
    let mut r = PatchReader::new(bytes);
    assert_eq!(r.read_node(), Ok(Some(node)));
}

#[test]
fn click_event_keeps_id_order() {
    let msg = Message::Event(EventType::Click, EventSubscription::Synchronized, vec![10, 11, 12]);
    let bytes = encode(&msg);
    assert_eq!(bytes.len(), 31);
    assert_eq!(bytes[0], 1); // Event
    assert_eq!(bytes[1], 3); // Click
    assert_eq!(bytes[2], 2); // Synchronized
    assert_eq!(&bytes[3..7], &[0, 0, 0, 3]); // id count
    match decode(bytes) {
        Ok(Message::Event(ty, sub, ids)) => {
            assert_eq!(ty, EventType::Click);
            assert_eq!(sub, EventSubscription::Synchronized);
            assert_eq!(ids, vec![10, 11, 12]);
        }
        other => panic!("unexpected decode result: {:?}", other),
    }
}

#[test]
fn event_ack_is_one_byte() {
    let bytes = encode(&Message::EventAck);
    assert_eq!(bytes, vec![2]);
    // Decoding consumes only that byte, whatever follows it.
    let mut r = PatchReader::new(vec![2, 9, 9, 9]);
    assert_eq!(r.read_msg(), Ok(Message::EventAck));
    assert_eq!(r.pos(), 1);
    assert_eq!(decode(vec![2, 255, 0, 7]), Ok(Message::EventAck));
}

#[test]
fn modify_attrs_with_every_attribute_kind() {
    let msg = Message::Patch(vec![PatchVal::ModifyAttrs(
        7,
        vec![
            AttributeVal::Class(ds("a b c")),
            AttributeVal::Style(ds("color"), ds("red")),
            AttributeVal::Event(EventType::KeyDown, EventSubscription::NotSynchronized),
        ],
    )]);
    let bytes = encode(&msg);
    assert_eq!(decode(bytes), Ok(msg));
}

#[test]
fn patch_stream_keeps_order_and_kinds() {
    let msg = Message::Patch(vec![
        PatchVal::Remove(3, vec![]),
        PatchVal::Append(
            4,
            vec![NodeVal::Text {
                id: 5,
                text: ds(""),
            }],
        ),
        PatchVal::AppendMultiple(
            6,
            vec![
                NodeVal::Element {
                    id: 7,
                    name: ElementName::Ul,
                    attrs: vec![],
                    children: vec![NodeVal::Element {
                        id: 8,
                        name: ElementName::Li,
                        attrs: vec![AttributeVal::Style(ds("x"), ds("y"))],
                        children: vec![NodeVal::Text {
                            id: 9,
                            text: ds("deep"),
                        }],
                    }],
                },
                NodeVal::Text {
                    id: 10,
                    text: ds("tail"),
                },
            ],
        ),
    ]);
    let bytes = encode(&msg);
    assert_eq!(decode(bytes), Ok(msg));
}

#[test]
fn empty_patch_stream_round_trips() {
    let msg = Message::Patch(vec![]);
    let bytes = encode(&msg);
    assert_eq!(bytes, vec![0, 255]);
    assert_eq!(decode(bytes), Ok(msg));
}

#[test]
fn event_with_no_ids_round_trips() {
    let msg = Message::Event(EventType::Load, EventSubscription::NoSubscription, vec![]);
    let bytes = encode(&msg);
    assert_eq!(bytes, vec![1, 12, 0, 0, 0, 0, 0]);
    assert_eq!(decode(bytes), Ok(msg));
}

#[test]
fn extreme_ids_round_trip() {
    let msg = Message::Event(
        EventType::MouseMove,
        EventSubscription::NotSynchronized,
        vec![0, 1, u64::MAX, 0x0123_4567_89AB_CDEF],
    );
    let bytes = encode(&msg);
    assert_eq!(decode(bytes), Ok(msg));
}

#[test]
fn primitive_writes_mirror_reads() {
    let mut w = PatchWriter::new();
    w.write_u64(u64::MAX);
    w.write_u32(0xDEAD_BEEF);
    w.write_u8(42);
    w.write_msg_type(MessageType::Event);
    let mut r = PatchReader::new(w.into_bytes());
    assert_eq!(r.read_u64(), Ok(u64::MAX));
    assert_eq!(r.read_u32(), Ok(0xDEAD_BEEF));
    assert_eq!(r.read_u8(), Ok(42));
    assert_eq!(r.read_msg_type(), Ok(MessageType::Event));
    assert_eq!(r.remaining_len(), 0);
}

#[test]
fn attribute_writer_matches_reader() {
    let class = ds("nav");
    let key = ds("width");
    let value = ds("100%");
    let mut w = PatchWriter::new();
    w.write_attr(AttributeRef::Class(&class));
    w.write_attr(AttributeRef::Style(&key, &value));
    w.write_attr(AttributeRef::Event(EventType::Blur, EventSubscription::Synchronized));
    w.write_end_list();
    let mut r = PatchReader::new(w.into_bytes());
    assert_eq!(r.read_attr(), Ok(Some(AttributeVal::Class(class))));
    assert_eq!(r.read_attr(), Ok(Some(AttributeVal::Style(key, value))));
    assert_eq!(
        r.read_attr(),
        Ok(Some(AttributeVal::Event(EventType::Blur, EventSubscription::Synchronized)))
    );
    assert_eq!(r.read_attr(), Ok(None));
}

#[test]
fn dom_str_round_trips_unicode() {
    let text = ds("héllo wörld ✓");
    let mut w = PatchWriter::new();
    w.write_dom_str(&text);
    let mut r = PatchReader::new(w.into_bytes());
    assert_eq!(r.read_dom_str(), Ok(text));
}

#[test]
fn low_level_writes_compose_into_a_message() {
    // Hand-rolled framing, as a transport writer would produce it, read
    // back through the message reader.
    let mut w = PatchWriter::new();
    w.write_msg_type(MessageType::Patch);
    w.write_patch_type(servo_vdom_client::patch::PatchType::Replace, 1);
    w.write_el(1, ElementName::Body);
    w.write_end_list(); // attributes
    w.write_end_list(); // children
    w.write_end_list(); // nodes of the patch
    w.write_end_list(); // patch stream
    let expected = Message::Patch(vec![PatchVal::Replace(
        1,
        vec![NodeVal::Element {
            id: 1,
            name: ElementName::Body,
            attrs: vec![],
            children: vec![],
        }],
    )]);
    assert_eq!(decode(w.into_bytes()), Ok(expected));
}
