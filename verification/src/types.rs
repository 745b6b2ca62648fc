//! The basic types and the limits of the network.

use vstd::prelude::*;

verus! {

/// An address in the network's identifier space.
pub type Address = Vec<u8>;

/// The address of a single node.
pub type NodeAddress = Address;

/// The address around which a group of nodes is formed.
pub type GroupAddress = Address;

/// Identifier that ties the copies of one logical message together.
pub type MessageId = u32;

/// The payload of a message, as it travels on the wire.
pub type SerialisedMessage = Vec<u8>;

/// Number of distinct senders that must contribute before a result is trusted.
pub const QUORUM_SIZE: usize = 19;

/// Number of keys that each accumulator of a sentinel tracks.
pub const ACCUMULATOR_CAPACITY: usize = 20;

/// Length in bytes of a detached signature.
pub const SIGNATURE_LENGTH: usize = 64;

/// Length in bytes of a public signing key.
pub const PUBLIC_KEY_LENGTH: usize = 32;

/// The kind of a message.
#[derive(Clone, Copy, Debug, PartialEq, Eq, Structural)]
pub enum MessageTypeTag {
    ConnectRequest,
    ConnectResponse,
    FindGroup,
    FindGroupResponse,
    GetData,
    GetDataResponse,
    GetClientKey,
    GetClientKeyResponse,
    GetGroupKey,
    GetGroupKeyResponse,
    Post,
    PostResponse,
    PutData,
    PutDataResponse,
    PutKey,
    AccountTransfer,
}

impl View for MessageTypeTag {
    type V = MessageTypeTag;

    open spec fn view(&self) -> MessageTypeTag {
        *self
    }
}

impl DeepView for MessageTypeTag {
    type V = MessageTypeTag;

    open spec fn deep_view(&self) -> MessageTypeTag {
        *self
    }
}

impl MessageTypeTag {
    /// Whether a message of this kind announces a public key.
    pub open spec fn spec_is_key_response(self) -> bool {
        self == MessageTypeTag::GetClientKeyResponse || self == MessageTypeTag::GetGroupKeyResponse
    }

    /// Whether a message of this kind announces a public key.
    #[verifier::when_used_as_spec(spec_is_key_response)]
    pub fn is_key_response(self) -> (b: bool)
        ensures
            b == self.spec_is_key_response(),
    {
        self == MessageTypeTag::GetClientKeyResponse || self == MessageTypeTag::GetGroupKeyResponse
    }
}

} // verus!
