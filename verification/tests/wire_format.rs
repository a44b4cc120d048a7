//! The sentinel reservation and the stability of the enumeration codes.

use servo_vdom_client::element::ElementName;
use servo_vdom_client::patch::{
    EventSubscription, EventType, MessageType, NodeType, PatchType,
};

#[test]
fn message_codes_are_stable_and_never_the_sentinel() {
    assert_eq!(MessageType::Patch.code(), 0);
    assert_eq!(MessageType::Event.code(), 1);
    assert_eq!(MessageType::EventAck.code(), 2);
    for ty in [MessageType::Patch, MessageType::Event, MessageType::EventAck] {
        assert_ne!(ty.code(), 255);
        assert_eq!(MessageType::from_code(ty.code()), Some(ty));
    }
    assert_eq!(MessageType::from_code(3), None);
    assert_eq!(MessageType::from_code(255), None);
}

#[test]
fn patch_codes_are_stable_and_never_the_sentinel() {
    let all = [
        PatchType::Replace,
        PatchType::ModifyAttrs,
        PatchType::Remove,
        PatchType::Append,
        PatchType::AppendMultiple,
    ];
    for (i, ty) in all.into_iter().enumerate() {
        assert_eq!(ty.code() as usize, i);
        assert_ne!(ty.code(), 255);
        assert_eq!(PatchType::from_code(ty.code()), Some(ty));
    }
    assert_eq!(PatchType::from_code(5), None);
    assert_eq!(PatchType::from_code(255), None);
}

#[test]
fn event_codes_are_stable_and_never_the_sentinel() {
    let all = [
        EventType::Blur,
        EventType::Resize,
        EventType::Change,
        EventType::Click,
        EventType::DoubleClick,
        EventType::Input,
        EventType::KeyDown,
        EventType::KeyPress,
        EventType::KeyUp,
        EventType::MouseMove,
        EventType::MouseOut,
        EventType::MouseOver,
        EventType::Load,
    ];
    for (i, ty) in all.into_iter().enumerate() {
        assert_eq!(ty.code() as usize, i);
        assert_ne!(ty.code(), 255);
        assert_eq!(EventType::from_code(ty.code()), Some(ty));
    }
    assert_eq!(EventType::from_code(13), None);
    assert_eq!(EventType::from_code(255), None);
}

#[test]
fn subscription_codes_are_stable_and_never_the_sentinel() {
    let all = [
        EventSubscription::NoSubscription,
        EventSubscription::NotSynchronized,
        EventSubscription::Synchronized,
    ];
    for (i, sub) in all.into_iter().enumerate() {
        assert_eq!(sub.code() as usize, i);
        assert_ne!(sub.code(), 255);
        assert_eq!(EventSubscription::from_code(sub.code()), Some(sub));
    }
    assert_eq!(EventSubscription::from_code(3), None);
    assert_eq!(EventSubscription::from_code(255), None);
}

#[test]
fn node_codes_are_stable_and_never_the_sentinel() {
    assert_eq!(NodeType::Element.code(), 0);
    assert_eq!(NodeType::Text.code(), 1);
    for ty in [NodeType::Element, NodeType::Text] {
        assert_ne!(ty.code(), 255);
        assert_eq!(NodeType::from_code(ty.code()), Some(ty));
    }
    assert_eq!(NodeType::from_code(2), None);
    assert_eq!(NodeType::from_code(255), None);
}

#[test]
fn element_codes_are_contiguous_and_never_the_sentinel() {
    // The table spans codes 0 through 127; spot-check its ends and middle,
    // and that decoding inverts encoding there.
    assert_eq!(ElementName::A.code(), 0);
    assert_eq!(ElementName::Body.code(), 16);
    assert_eq!(ElementName::Div.code(), 34);
    assert_eq!(ElementName::ImageMap.code(), 70);
    assert_eq!(ElementName::Xmp.code(), 127);
    for code in 0..=127u8 {
        let name = ElementName::from_code(code).expect("every code below 128 maps to a name");
        assert_eq!(name.code(), code);
        assert_ne!(name.code(), 255);
    }
    for code in 128..=255u8 {
        assert_eq!(ElementName::from_code(code), None);
    }
}
