//! The part of a routing node that decides which messages to trust. Every message reaches a
//! node in many copies, from the members of a group; a sentinel collects the copies, and the
//! public key of whoever claims to have sent them, and passes a message on once enough senders
//! stand behind it.

use vstd::prelude::*;

pub mod accumulator;
pub mod entries;
pub mod lru;
pub mod message_header;
pub mod messages;
pub mod resolver;
pub mod response;
pub mod sentinel;
pub mod signature;
pub mod types;
pub mod validator;

verus! {

/// Where a message is to go.
pub struct DestinationAddress {
    pub dest: Vec<u8>,
}

/// The identity of a node in the network.
pub struct DhtIdentity {
    pub id: [u8; 64],
}

impl Default for DhtIdentity {
    fn default() -> (identity: DhtIdentity)
        ensures
            forall|i: int| 0 <= i < 64 ==> identity.id[i] == 0,
    {
        DhtIdentity { id: [0;64] }
    }
}

/// The role in which a node or a group acts on a message.
pub enum Authority {
    Client,
    Node,
    ClientManager,
    NaeManager,
    NodeManager,
}

/// What a node does with a request that it has handled.
pub enum Action {
    /// Answer the sender with this data.
    Reply(Vec<u8>),
    /// Pass the request on to these nodes.
    SendOn(Vec<DhtIdentity>),
}

/// Why a request was not served. `Success` says that a vault has served it and that nothing
/// is left to do.
pub enum RoutingError {
    Success,
    NoData,
    InvalidRequest,
    IncorrectData(Vec<u8>),
}

/// The rules of the network, as whoever runs a node lays them down: what the node does with
/// each kind of request, and with the answers to its own.
pub trait Facade: Sync {
    /// Handles a request for data. Where the result is a reply, it goes back to the sender.
    fn handle_get(
        &mut self,
        our_authority: Authority,
        from_authority: Authority,
        from_address: DhtIdentity,
        data: Vec<u8>,
    ) -> Result<Action, RoutingError>;

    /// Handles a request to store data.
    fn handle_put(
        &mut self,
        our_authority: Authority,
        from_authority: Authority,
        from_address: DhtIdentity,
        dest_address: DestinationAddress,
        data: Vec<u8>,
    ) -> Result<Action, RoutingError>;

    /// Handles a request to change data.
    fn handle_post(
        &mut self,
        our_authority: Authority,
        from_authority: Authority,
        from_address: DhtIdentity,
        data: Vec<u8>,
    ) -> Result<Action, RoutingError>;

    /// Takes the answer to a request for data.
    fn handle_get_response(
        &mut self,
        from_address: DhtIdentity,
        response: Result<Vec<u8>, RoutingError>,
    );

    /// Takes the answer to a request to store data.
    fn handle_put_response(
        &mut self,
        from_authority: Authority,
        from_address: DhtIdentity,
        response: Result<Vec<u8>, RoutingError>,
    );

    /// Takes the answer to a request to change data.
    fn handle_post_response(
        &mut self,
        from_authority: Authority,
        from_address: DhtIdentity,
        response: Result<Vec<u8>, RoutingError>,
    );
}

} // verus!
