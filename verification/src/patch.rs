//! The domain enumerations of the patch protocol and their one-byte wire
//! codes.
//!
//! Every enumeration's codes are contiguous from 0 and never reach the list
//! sentinel `255`; a decoder rejects any byte that maps to no variant.

use vstd::prelude::*;

use crate::domstr::DomString;

verus! {

/// The possible message types.
#[derive(Clone, Copy, Debug, PartialEq, Eq, Structural)]
pub enum MessageType {
    /// A stream of tree patches follows.
    Patch,
    /// A single input event follows.
    Event,
    /// Nothing follows; the tag alone acknowledges an event.
    EventAck,
}

/// The possible patch types.
#[derive(Clone, Copy, Debug, PartialEq, Eq, Structural)]
pub enum PatchType {
    /// Replace the target node with the nodes that follow.
    Replace,
    /// Replace the target node's attributes with the attribute list that
    /// follows.
    ModifyAttrs,
    /// Remove the target node; an empty node list follows.
    Remove,
    /// Append one subtree under the target node.
    Append,
    /// Append several subtrees under the target node.
    AppendMultiple,
}

/// The possible event types.
#[derive(Clone, Copy, Debug, PartialEq, Eq, Structural)]
pub enum EventType {
    /// Focus left a node.
    Blur,
    /// The viewport was resized.
    Resize,
    /// A node's value changed and was committed.
    Change,
    /// A pointer click.
    Click,
    /// A pointer double click.
    DoubleClick,
    /// A node's value changed.
    Input,
    /// A key went down.
    KeyDown,
    /// A key was pressed.
    KeyPress,
    /// A key went up.
    KeyUp,
    /// The pointer moved.
    MouseMove,
    /// The pointer left a node.
    MouseOut,
    /// The pointer entered a node.
    MouseOver,
    /// The document finished loading.
    Load,
}

/// The possible event synchronization values. If an event is synchronized,
/// the emitting side waits for the connected application to answer the event
/// with an `EventAck` message before proceeding.
#[derive(Clone, Copy, Debug, PartialEq, Eq, Structural)]
pub enum EventSubscription {
    /// No subscription.
    NoSubscription,
    /// Subscribed, without a handshake.
    NotSynchronized,
    /// Subscribed; the emitter blocks until the event is acknowledged.
    Synchronized,
}

/// The possible node types.
#[derive(Clone, Copy, Debug, PartialEq, Eq, Structural)]
pub enum NodeType {
    /// An element with attributes and children.
    Element,
    /// A text node.
    Text,
}

/// The possible HTML attributes, borrowed for writing.
pub enum AttributeRef<'a> {
    /// A class list.
    Class(&'a DomString),
    /// A style property: key, then value.
    Style(&'a DomString, &'a DomString),
    /// An event listener: type and synchronization.
    Event(EventType, EventSubscription),
}

/// The possible HTML attributes, owned as produced by a decoder.
#[derive(Debug, PartialEq, Eq)]
pub enum AttributeVal {
    /// A class list.
    Class(DomString),
    /// A style property: key, then value.
    Style(DomString, DomString),
    /// An event listener: type and synchronization.
    Event(EventType, EventSubscription),
}

/// The one-byte wire code of a message type.
pub open spec fn message_code(ty: MessageType) -> u8 {
    match ty {
        MessageType::Patch => 0,
        MessageType::Event => 1,
        MessageType::EventAck => 2,
    }
}

/// The message type a wire code stands for, if any.
pub open spec fn message_from_code(code: u8) -> Option<MessageType> {
    match code {
        0u8 => Some(MessageType::Patch),
        1u8 => Some(MessageType::Event),
        2u8 => Some(MessageType::EventAck),
        _ => None,
    }
}

/// The one-byte wire code of a patch type.
pub open spec fn patch_code(ty: PatchType) -> u8 {
    match ty {
        PatchType::Replace => 0,
        PatchType::ModifyAttrs => 1,
        PatchType::Remove => 2,
        PatchType::Append => 3,
        PatchType::AppendMultiple => 4,
    }
}

/// The patch type a wire code stands for, if any.
pub open spec fn patch_from_code(code: u8) -> Option<PatchType> {
    match code {
        0u8 => Some(PatchType::Replace),
        1u8 => Some(PatchType::ModifyAttrs),
        2u8 => Some(PatchType::Remove),
        3u8 => Some(PatchType::Append),
        4u8 => Some(PatchType::AppendMultiple),
        _ => None,
    }
}

/// The one-byte wire code of an event type.
pub open spec fn event_code(ty: EventType) -> u8 {
    match ty {
        EventType::Blur => 0,
        EventType::Resize => 1,
        EventType::Change => 2,
        EventType::Click => 3,
        EventType::DoubleClick => 4,
        EventType::Input => 5,
        EventType::KeyDown => 6,
        EventType::KeyPress => 7,
        EventType::KeyUp => 8,
        EventType::MouseMove => 9,
        EventType::MouseOut => 10,
        EventType::MouseOver => 11,
        EventType::Load => 12,
    }
}

/// The event type a wire code stands for, if any.
pub open spec fn event_from_code(code: u8) -> Option<EventType> {
    match code {
        0u8 => Some(EventType::Blur),
        1u8 => Some(EventType::Resize),
        2u8 => Some(EventType::Change),
        3u8 => Some(EventType::Click),
        4u8 => Some(EventType::DoubleClick),
        5u8 => Some(EventType::Input),
        6u8 => Some(EventType::KeyDown),
        7u8 => Some(EventType::KeyPress),
        8u8 => Some(EventType::KeyUp),
        9u8 => Some(EventType::MouseMove),
        10u8 => Some(EventType::MouseOut),
        11u8 => Some(EventType::MouseOver),
        12u8 => Some(EventType::Load),
        _ => None,
    }
}

/// The one-byte wire code of an event subscription.
pub open spec fn subscription_code(sub: EventSubscription) -> u8 {
    match sub {
        EventSubscription::NoSubscription => 0,
        EventSubscription::NotSynchronized => 1,
        EventSubscription::Synchronized => 2,
    }
}

/// The event subscription a wire code stands for, if any.
pub open spec fn subscription_from_code(code: u8) -> Option<EventSubscription> {
    match code {
        0u8 => Some(EventSubscription::NoSubscription),
        1u8 => Some(EventSubscription::NotSynchronized),
        2u8 => Some(EventSubscription::Synchronized),
        _ => None,
    }
}

/// The one-byte wire code of a node type.
pub open spec fn node_code(ty: NodeType) -> u8 {
    match ty {
        NodeType::Element => 0,
        NodeType::Text => 1,
    }
}

/// The node type a wire code stands for, if any.
pub open spec fn node_from_code(code: u8) -> Option<NodeType> {
    match code {
        0u8 => Some(NodeType::Element),
        1u8 => Some(NodeType::Text),
        _ => None,
    }
}

impl MessageType {
    /// Returns the one-byte wire code of this message type.
    pub fn code(&self) -> (r: u8)
        ensures
            r == message_code(*self),
    {
        match *self {
            MessageType::Patch => 0,
            MessageType::Event => 1,
            MessageType::EventAck => 2,
        }
    }

    /// Maps a wire code back to a message type, rejecting unknown codes.
    pub fn from_code(code: u8) -> (r: Option<MessageType>)
        ensures
            r == message_from_code(code),
    {
        match code {
            0u8 => Some(MessageType::Patch),
            1u8 => Some(MessageType::Event),
            2u8 => Some(MessageType::EventAck),
            _ => None,
        }
    }
}

impl PatchType {
    /// Returns the one-byte wire code of this patch type.
    pub fn code(&self) -> (r: u8)
        ensures
            r == patch_code(*self),
    {
        match *self {
            PatchType::Replace => 0,
            PatchType::ModifyAttrs => 1,
            PatchType::Remove => 2,
            PatchType::Append => 3,
            PatchType::AppendMultiple => 4,
        }
    }

    /// Maps a wire code back to a patch type, rejecting unknown codes.
    pub fn from_code(code: u8) -> (r: Option<PatchType>)
        ensures
            r == patch_from_code(code),
    {
        match code {
            0u8 => Some(PatchType::Replace),
            1u8 => Some(PatchType::ModifyAttrs),
            2u8 => Some(PatchType::Remove),
            3u8 => Some(PatchType::Append),
            4u8 => Some(PatchType::AppendMultiple),
            _ => None,
        }
    }
}

impl EventType {
    /// Returns the one-byte wire code of this event type.
    pub fn code(&self) -> (r: u8)
        ensures
            r == event_code(*self),
    {
        match *self {
            EventType::Blur => 0,
            EventType::Resize => 1,
            EventType::Change => 2,
            EventType::Click => 3,
            EventType::DoubleClick => 4,
            EventType::Input => 5,
            EventType::KeyDown => 6,
            EventType::KeyPress => 7,
            EventType::KeyUp => 8,
            EventType::MouseMove => 9,
            EventType::MouseOut => 10,
            EventType::MouseOver => 11,
            EventType::Load => 12,
        }
    }

    /// Maps a wire code back to an event type, rejecting unknown codes.
    pub fn from_code(code: u8) -> (r: Option<EventType>)
        ensures
            r == event_from_code(code),
    {
        match code {
            0u8 => Some(EventType::Blur),
            1u8 => Some(EventType::Resize),
            2u8 => Some(EventType::Change),
            3u8 => Some(EventType::Click),
            4u8 => Some(EventType::DoubleClick),
            5u8 => Some(EventType::Input),
            6u8 => Some(EventType::KeyDown),
            7u8 => Some(EventType::KeyPress),
            8u8 => Some(EventType::KeyUp),
            9u8 => Some(EventType::MouseMove),
            10u8 => Some(EventType::MouseOut),
            11u8 => Some(EventType::MouseOver),
            12u8 => Some(EventType::Load),
            _ => None,
        }
    }
}

impl EventSubscription {
    /// Returns the one-byte wire code of this subscription.
    pub fn code(&self) -> (r: u8)
        ensures
            r == subscription_code(*self),
    {
        match *self {
            EventSubscription::NoSubscription => 0,
            EventSubscription::NotSynchronized => 1,
            EventSubscription::Synchronized => 2,
        }
    }

    /// Maps a wire code back to a subscription, rejecting unknown codes.
    pub fn from_code(code: u8) -> (r: Option<EventSubscription>)
        ensures
            r == subscription_from_code(code),
    {
        match code {
            0u8 => Some(EventSubscription::NoSubscription),
            1u8 => Some(EventSubscription::NotSynchronized),
            2u8 => Some(EventSubscription::Synchronized),
            _ => None,
        }
    }
}

impl NodeType {
    /// Returns the one-byte wire code of this node type.
    pub fn code(&self) -> (r: u8)
        ensures
            r == node_code(*self),
    {
        match *self {
            NodeType::Element => 0,
            NodeType::Text => 1,
        }
    }

    /// Maps a wire code back to a node type, rejecting unknown codes.
    pub fn from_code(code: u8) -> (r: Option<NodeType>)
        ensures
            r == node_from_code(code),
    {
        match code {
            0u8 => Some(NodeType::Element),
            1u8 => Some(NodeType::Text),
            _ => None,
        }
    }
}

} // verus!
