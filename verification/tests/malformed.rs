//! Rejection of malformed input: truncation, bad discriminants, bad UTF-8.

use servo_vdom_client::domstr::DomString;
use servo_vdom_client::element::ElementName;
use servo_vdom_client::error::{io_error, DecodeError, EnumKind};
use servo_vdom_client::model::{Message, NodeVal, PatchVal};
use servo_vdom_client::patch::{AttributeVal, EventSubscription, EventType};
use servo_vdom_client::reader::{decode, PatchReader};
use servo_vdom_client::writer::encode;

fn ds(text: &str) -> DomString {
    DomString::from_bytes(text.as_bytes().to_vec()).unwrap()
}

/// A message exercising every frame kind: patches, nested nodes,
/// attributes of all three kinds, and strings.
fn rich_message() -> Message {
    Message::Patch(vec![
        PatchVal::Replace(
            1,
            vec![NodeVal::Element {
                id: 2,
                name: ElementName::Div,
                attrs: vec![
                    AttributeVal::Class(ds("c")),
                    AttributeVal::Style(ds("k"), ds("v")),
                    AttributeVal::Event(EventType::Click, EventSubscription::Synchronized),
                ],
                children: vec![NodeVal::Text {
                    id: 3,
                    text: ds("hi"),
                }],
            }],
        ),
        PatchVal::ModifyAttrs(4, vec![AttributeVal::Class(ds("d"))]),
    ])
}

#[test]
fn every_proper_prefix_is_truncated() {
    let bytes = encode(&rich_message());
    for k in 0..bytes.len() {
        let prefix = bytes[..k].to_vec();
        assert_eq!(
            decode(prefix),
            Err(DecodeError::TruncatedStream),
            "prefix of length {} of {}",
            k,
            bytes.len()
        );
    }
}

#[test]
fn every_proper_prefix_of_an_event_is_truncated() {
    let bytes = encode(&Message::Event(
        EventType::KeyUp,
        EventSubscription::NotSynchronized,
        vec![1, 2, 3, 4],
    ));
    for k in 0..bytes.len() {
        assert_eq!(decode(bytes[..k].to_vec()), Err(DecodeError::TruncatedStream));
    }
}

#[test]
fn empty_input_is_truncated() {
    assert_eq!(decode(vec![]), Err(DecodeError::TruncatedStream));
}

#[test]
fn unknown_message_tag_is_rejected() {
    assert_eq!(
        decode(vec![3]),
        Err(DecodeError::InvalidDiscriminant(3, EnumKind::Message))
    );
    assert_eq!(
        decode(vec![77, 0, 0]),
        Err(DecodeError::InvalidDiscriminant(77, EnumKind::Message))
    );
    // The sentinel has no meaning in the message-type position either.
    assert_eq!(
        decode(vec![255]),
        Err(DecodeError::InvalidDiscriminant(255, EnumKind::Message))
    );
}

#[test]
fn unknown_patch_tag_is_rejected() {
    assert_eq!(
        decode(vec![0, 9]),
        Err(DecodeError::InvalidDiscriminant(9, EnumKind::Patch))
    );
}

#[test]
fn unknown_node_tag_is_rejected() {
    // Patch message, Replace patch of target 2, then node tag 7.
    let bytes = vec![0, 0, 0, 0, 0, 0, 0, 0, 0, 2, 7];
    assert_eq!(
        decode(bytes),
        Err(DecodeError::InvalidDiscriminant(7, EnumKind::Node))
    );
}

#[test]
fn unknown_element_name_is_rejected() {
    // Element header with name code 200, which maps to no element.
    let mut bytes = vec![0, 0, 0, 0, 0, 0, 0, 0, 0, 2, 0];
    bytes.extend_from_slice(&[0, 0, 0, 0, 0, 0, 0, 9]); // node id
    bytes.push(200); // element-name code
    assert_eq!(
        decode(bytes),
        Err(DecodeError::InvalidDiscriminant(200, EnumKind::Element))
    );
}

#[test]
fn unknown_attribute_tag_is_rejected() {
    let mut bytes = vec![0, 0, 0, 0, 0, 0, 0, 0, 0, 2, 0];
    bytes.extend_from_slice(&[0, 0, 0, 0, 0, 0, 0, 9]); // node id
    bytes.push(34); // Div
    bytes.push(9); // attribute tag out of range
    assert_eq!(
        decode(bytes),
        Err(DecodeError::InvalidDiscriminant(9, EnumKind::Attribute))
    );
}

#[test]
fn unknown_event_type_is_rejected() {
    assert_eq!(
        decode(vec![1, 77]),
        Err(DecodeError::InvalidDiscriminant(77, EnumKind::Event))
    );
}

#[test]
fn unknown_subscription_is_rejected() {
    assert_eq!(
        decode(vec![1, 3, 9]),
        Err(DecodeError::InvalidDiscriminant(9, EnumKind::Subscription))
    );
}

#[test]
fn corrupting_a_discriminant_fails_decoding() {
    let good = encode(&rich_message());
    // Byte 1 is the first patch-type tag of the stream.
    let mut bad = good.clone();
    bad[1] = 9;
    assert_eq!(
        decode(bad),
        Err(DecodeError::InvalidDiscriminant(9, EnumKind::Patch))
    );
    // Byte 10 is the node-type tag of the replacement subtree.
    let mut bad = good.clone();
    bad[10] = 7;
    assert_eq!(
        decode(bad),
        Err(DecodeError::InvalidDiscriminant(7, EnumKind::Node))
    );
    // Byte 19 is the element-name code of that element.
    let mut bad = good;
    bad[19] = 254;
    assert_eq!(
        decode(bad),
        Err(DecodeError::InvalidDiscriminant(254, EnumKind::Element))
    );
}

#[test]
fn invalid_utf8_in_a_text_node_is_rejected() {
    // Patch message, Replace of target 2, text node 5, length 2, bad bytes.
    let mut bytes = vec![0, 0, 0, 0, 0, 0, 0, 0, 0, 2, 1];
    bytes.extend_from_slice(&[0, 0, 0, 0, 0, 0, 0, 5]); // node id
    bytes.extend_from_slice(&[0, 0, 0, 2]); // string length
    bytes.extend_from_slice(&[0xFF, 0xFE]); // not valid UTF-8
    assert_eq!(decode(bytes), Err(DecodeError::InvalidUtf8));
}

#[test]
fn string_shorter_than_declared_is_truncated() {
    let mut bytes = vec![0, 0, 0, 0, 0, 0, 0, 0, 0, 2, 1];
    bytes.extend_from_slice(&[0, 0, 0, 0, 0, 0, 0, 5]); // node id
    bytes.extend_from_slice(&[0, 0, 0, 9]); // declares 9 bytes
    bytes.extend_from_slice(&[0x61, 0x62]); // only two arrive
    assert_eq!(decode(bytes), Err(DecodeError::TruncatedStream));
}

#[test]
fn dom_string_construction_validates_utf8() {
    assert_eq!(DomString::from_bytes(vec![0xFF]), None);
    let s = DomString::from_bytes(b"ok".to_vec()).unwrap();
    assert_eq!(s.as_bytes(), &b"ok".to_vec());
    assert_eq!(s.byte_len(), 2);
}

#[test]
fn io_error_reports_truncation() {
    assert_eq!(io_error(), DecodeError::TruncatedStream);
}

#[test]
fn reader_reports_truncation_on_short_integers() {
    let mut r = PatchReader::new(vec![1, 2, 3]);
    assert_eq!(r.read_u64(), Err(DecodeError::TruncatedStream));
    let mut r = PatchReader::new(vec![1]);
    assert_eq!(r.read_u32(), Err(DecodeError::TruncatedStream));
    let mut r = PatchReader::new(vec![]);
    assert_eq!(r.read_u8(), Err(DecodeError::TruncatedStream));
}
