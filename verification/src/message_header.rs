//! The header of a message.

use vstd::prelude::*;
use crate::types::{GroupAddress, MessageId, NodeAddress};

verus! {

/// What a message header says, as mathematical values.
pub struct MessageHeaderView {
    pub message_id: MessageId,
    pub from_node: Seq<u8>,
    pub from_group: Option<Seq<u8>>,
    pub signature: Seq<u8>,
}

/// The header that accompanies every message: who claims to have sent it, which logical message
/// it belongs to, and the detached signature over its payload.
#[derive(Debug)]
pub struct MessageHeader {
    pub message_id: MessageId,
    pub from_node: NodeAddress,
    pub from_group: Option<GroupAddress>,
    pub signature: Vec<u8>,
}

impl View for MessageHeader {
    type V = MessageHeaderView;

    open spec fn view(&self) -> MessageHeaderView {
        MessageHeaderView {
            message_id: self.message_id,
            from_node: self.from_node@,
            from_group: match self.from_group {
                Some(group) => Some(group@),
                None => None,
            },
            signature: self.signature@,
        }
    }
}

impl DeepView for MessageHeader {
    type V = MessageHeaderView;

    open spec fn deep_view(&self) -> MessageHeaderView {
        self@
    }
}

impl Clone for MessageHeader {
    fn clone(&self) -> (copy: MessageHeader)
        ensures
            copy@ == self@,
    {
        let from_group = match &self.from_group {
            Some(group) => Some(group.clone()),
            None => None,
        };
        MessageHeader {
            message_id: self.message_id,
            from_node: self.from_node.clone(),
            from_group,
            signature: self.signature.clone(),
        }
    }
}

impl MessageHeader {
    /// Builds a header from its four parts.
    pub fn new(
        message_id: MessageId,
        from_node: NodeAddress,
        from_group: Option<GroupAddress>,
        signature: Vec<u8>,
    ) -> (header: MessageHeader)
        ensures
            header.message_id == message_id,
            header.from_node == from_node,
            header.from_group == from_group,
            header.signature == signature,
    {
        MessageHeader { message_id, from_node, from_group, signature }
    }

    /// The identifier of the logical message.
    pub fn message_id(&self) -> (id: MessageId)
        ensures
            id == self@.message_id,
    {
        self.message_id
    }

    /// The node that claims to have sent the message.
    pub fn from_node(&self) -> (node: NodeAddress)
        ensures
            node@ == self@.from_node,
    {
        self.from_node.clone()
    }

    /// The group on whose behalf the message claims to speak, if any.
    pub fn from_group(&self) -> (group: Option<GroupAddress>)
        ensures
            group.deep_view() == self@.from_group,
    {
        match &self.from_group {
            Some(group) => Some(group.clone()),
            None => None,
        }
    }

    /// Whether the message claims to come from a group.
    pub fn is_from_group(&self) -> (claimed: bool)
        ensures
            claimed == self@.from_group.is_some(),
    {
        self.from_group.is_some()
    }

    /// The detached signature over the payload.
    pub fn signature(&self) -> (signature: Vec<u8>)
        ensures
            signature@ == self@.signature,
    {
        self.signature.clone()
    }
}

} // verus!
