//! The values that travel between clients and nodes.

use vstd::prelude::*;

verus! {

/// How a node answered a call.
#[allow(non_camel_case_types)]
#[derive(Clone, Copy, Debug, PartialEq, Eq, Structural)]
pub enum State {
    OK,
    NOT_FOUND,
    WRONG_LEADER,
    IO_ERROR,
}

/// The two endpoints of a node.
#[derive(Clone, Debug)]
pub struct NodeAddress {
    pub kv_address: String,
    pub raft_address: String,
}

/// One line of a membership map.
#[derive(Clone, Debug)]
pub struct Member {
    pub id: u64,
    pub address: NodeAddress,
}

/// The membership map as a reply carries it: lines in the order received.
/// Where an id stands twice, the later line counts.
#[derive(Clone, Debug)]
pub struct AddressMap {
    pub members: Vec<Member>,
}

#[derive(Clone, Debug)]
pub struct GetReq {
    pub key: Vec<u8>,
}

#[derive(Clone, Debug)]
pub struct PutReq {
    pub key: Vec<u8>,
    pub value: Vec<u8>,
}

#[derive(Clone, Debug)]
pub struct DeleteReq {
    pub key: Vec<u8>,
}

/// A call to the key-value service of a node.
#[derive(Clone, Debug)]
pub enum Request {
    Get(GetReq),
    Put(PutReq),
    Delete(DeleteReq),
}

/// The answer to a read.
#[derive(Clone, Debug)]
pub struct GetReply {
    pub state: State,
    pub value: Vec<u8>,
    pub leader_id: u64,
    pub address_map: AddressMap,
}

/// The answer to a write, to a change of membership and to a status call.
#[derive(Clone, Debug)]
pub struct Reply {
    pub state: State,
    pub leader_id: u64,
    pub address_map: AddressMap,
}

/// The kind of a change of membership.
#[derive(Clone, Copy, Debug, PartialEq, Eq, Structural)]
pub enum ConfChangeType {
    AddNode,
    RemoveNode,
}

/// A change of membership: the node that joins or leaves, and for a join
/// its encoded address.
#[derive(Clone, Debug)]
pub struct ConfChange {
    pub node_id: u64,
    pub change_type: ConfChangeType,
    pub context: Vec<u8>,
}

/// A call to the raft service of a node.
#[derive(Clone, Debug)]
pub enum AdminRequest {
    Status,
    ChangeConfig(ConfChange),
}

/// Why a client gave a call up.
#[derive(Clone, Copy, Debug, PartialEq, Eq, Structural)]
pub enum ClientError {
    /// The client holds no connection to the node it wanted to ask.
    NoClient { node_id: u64 },
    /// The call did not reach the node, or no answer came back.
    Transport,
    /// The key is not in the store.
    NotFound,
    /// The node answered with a failure that no retry mends.
    Failed,
    /// The call has sent all the requests it may.
    RetryExhausted,
}

/// What the caller does to its connections after a reply.
#[derive(Clone, Debug)]
pub enum Link {
    /// Open a connection to the node at this address, in place of any older one.
    Open { id: u64, address: String },
    /// Close the connection to the node.
    Close { id: u64 },
}

impl AddressMap {
    /// The map without a line.
    pub fn new() -> (r: AddressMap)
        ensures
            r.members@.len() == 0,
    {
        AddressMap { members: Vec::new() }
    }

    /// Adds a line at the end.
    pub fn insert(&mut self, id: u64, address: NodeAddress)
        ensures
            final(self).members@ == old(self).members@.push(Member { id, address }),
    {
        self.members.push(Member { id, address });
    }

    pub fn len(&self) -> (n: usize)
        ensures
            n == self.members@.len(),
    {
        self.members.len()
    }
}

} // verus!
