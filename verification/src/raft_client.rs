//! The client of the raft service: joins, leaves and status calls, all
//! sent to the leader.

use vstd::prelude::*;
use crate::common::{AddressMap, AdminRequest, ClientError, ConfChange, ConfChangeType, Link, NodeAddress, Reply};
use crate::routes::{all_open, directory, distinct, link_views, links, owner, raft_lines, reconciled, AddressBook};
use crate::session::{after_leader, aim, aimed, leader_step, Call, Step};

verus! {

/// A string as it stands in an encoded address: the number of its UTF-8
/// bytes, as eight bytes with the lowest first, then the bytes.
pub open spec fn encoded_string(s: Seq<char>) -> Seq<u8> {
    vstd::bytes::spec_u64_to_le_bytes(vstd::utf8::encode_utf8(s).len() as u64) + vstd::utf8::encode_utf8(s)
}

/// The address of a node as a join carries it: the kv address, then the
/// raft address.
pub open spec fn encoded_address(kv_address: Seq<char>, raft_address: Seq<char>) -> Seq<u8> {
    encoded_string(kv_address) + encoded_string(raft_address)
}

/// Calls `bincode::serialize` on the pair of the two strings. The contract
/// claims that the call gives bytes for every two strings, and that they
/// are the two strings one after the other, each as its length in eight
/// bytes, lowest first, and its UTF-8 bytes.
#[verifier::external_body]
fn encode_pair(first: &String, second: &String) -> (bytes: Vec<u8>)
    ensures
        bytes@ == encoded_address(first@, second@),
{
    bincode::serialize(&(first, second)).unwrap_or_default()
}

/// What a client of the raft service knows of the cluster.
#[derive(Debug)]
pub struct RaftClient {
    leader_id: u64,
    node_id: u64,
    addresses: AddressBook,
}

impl RaftClient {
    /// The node believed to lead.
    pub closed spec fn leader(&self) -> u64 {
        self.leader_id
    }

    /// The node that the client was pointed at when it was made.
    pub closed spec fn node(&self) -> u64 {
        self.node_id
    }

    /// The directory: node ids with their raft addresses.
    pub closed spec fn book(&self) -> Seq<(u64, Seq<char>)> {
        self.addresses@
    }

    /// No id stands twice in the directory.
    pub open spec fn wf(&self) -> bool {
        distinct(self.book())
    }

    /// The node of `members` that stands at the raft address `address`:
    /// the first in the order of the directory, `None` where there is
    /// none.
    pub fn home_node(address: &str, members: &AddressMap) -> (r: Option<u64>)
        ensures
            r == owner(raft_lines(members.members@), address@),
    {
        let book = members.raft_routes();
        book.owner_of(&address.to_owned())
    }

    /// A client made from the answer of the node at `address` to a status
    /// call. It takes the leader and the directory from the answer. The
    /// caller keeps its connection to that node, which is `node()`, and
    /// opens one to every other node of the directory.
    pub fn new(address: &str, status: &Reply) -> (client: RaftClient)
        requires
            owner(raft_lines(status.address_map.members@), address@) is Some,
        ensures
            client.wf(),
            client.leader() == status.leader_id,
            client.book() == raft_lines(status.address_map.members@),
            Some(client.node()) == owner(client.book(), address@),
    {
        let addresses = status.address_map.raft_routes();
        let node_id = match addresses.owner_of(&address.to_owned()) {
            Some(id) => id,
            None => 0,
        };
        RaftClient { leader_id: status.leader_id, node_id, addresses }
    }

    /// Begins the join of node `node_id`, whose address is already
    /// encoded in `context`: the request goes to the believed leader.
    pub fn join_with(&mut self, node_id: u64, context: Vec<u8>) -> (step: Step<AdminRequest, AddressMap>)
        requires
            old(self).wf(),
        ensures
            *final(self) == *old(self),
            step == aimed::<AdminRequest, AddressMap>(
                old(self).book(),
                old(self).leader(),
                AdminRequest::ChangeConfig(
                    (ConfChange { node_id, change_type: ConfChangeType::AddNode, context }),
                ),
                0,
            ),
    {
        let change = ConfChange { node_id, change_type: ConfChangeType::AddNode, context };
        aim(&self.addresses, self.leader_id, AdminRequest::ChangeConfig(change), 0)
    }

    /// Begins the join of node `node_id` at `node_address`: the address is
    /// encoded into the request, which goes to the believed leader.
    pub fn join(&mut self, node_id: u64, node_address: NodeAddress) -> (step: Step<AdminRequest, AddressMap>)
        requires
            old(self).wf(),
        ensures
            *final(self) == *old(self),
            exists|context: Vec<u8>|
                context@ == encoded_address(node_address.kv_address@, node_address.raft_address@) && step
                    == aimed::<AdminRequest, AddressMap>(
                    old(self).book(),
                    old(self).leader(),
                    AdminRequest::ChangeConfig(
                        (ConfChange { node_id, change_type: ConfChangeType::AddNode, context }),
                    ),
                    0,
                ),
    {
        let context = encode_pair(&node_address.kv_address, &node_address.raft_address);
        self.join_with(node_id, context)
    }

    /// Begins the leave of node `id`: the request, with nothing encoded in
    /// it, goes to the believed leader.
    pub fn leave(&mut self, id: u64) -> (step: Step<AdminRequest, AddressMap>)
        requires
            old(self).wf(),
        ensures
            *final(self) == *old(self),
            exists|context: Vec<u8>|
                context@.len() == 0 && step == aimed::<AdminRequest, AddressMap>(
                    old(self).book(),
                    old(self).leader(),
                    AdminRequest::ChangeConfig(
                        (ConfChange { node_id: id, change_type: ConfChangeType::RemoveNode, context }),
                    ),
                    0,
                ),
    {
        let change = ConfChange { node_id: id, change_type: ConfChangeType::RemoveNode, context: Vec::new() };
        aim(&self.addresses, self.leader_id, AdminRequest::ChangeConfig(change), 0)
    }

    /// Begins a status call: the request goes to the believed leader.
    pub fn status(&mut self) -> (step: Step<AdminRequest, AddressMap>)
        requires
            old(self).wf(),
        ensures
            *final(self) == *old(self),
            step == aimed::<AdminRequest, AddressMap>(old(self).book(), old(self).leader(), AdminRequest::Status, 0),
    {
        aim(&self.addresses, self.leader_id, AdminRequest::Status, 0)
    }

    /// Takes the answer to a join, a leave or a status call, or `None`
    /// where the call did not get through, and decides the next step.
    ///
    /// An answer renews the directory and the believed leader. `OK` ends
    /// the call with the membership map of the answer; `WRONG_LEADER` asks
    /// the leader that the answer names, until the call has sent all the
    /// requests it may; any other answer ends the call in failure.
    pub fn reply(&mut self, call: Call<AdminRequest>, reply: Option<Reply>) -> (r: (
        Vec<Link>,
        Step<AdminRequest, AddressMap>,
    ))
        requires
            old(self).wf(),
        ensures
            final(self).wf(),
            final(self).node() == old(self).node(),
            match reply {
                None => *final(self) == *old(self) && r.0@.len() == 0 && r.1 == Step::<
                    AdminRequest,
                    AddressMap,
                >::Done(Err(ClientError::Transport)),
                Some(answer) => {
                    let target = raft_lines(answer.address_map.members@);
                    let book = reconciled(old(self).book(), target);
                    &&& final(self).book() == book
                    &&& directory(book) == directory(target)
                    &&& final(self).leader() == answer.leader_id
                    &&& link_views(r.0@) == links(old(self).book(), target)
                    &&& r.1 == leader_step(book, answer.leader_id, call, answer.state, answer.address_map)
                },
            },
    {
        match reply {
            None => (Vec::new(), Step::Done(Err(ClientError::Transport))),
            Some(answer) => {
                let target = answer.address_map.raft_routes();
                let changes = self.addresses.reconcile(&target);
                self.leader_id = answer.leader_id;
                let step = after_leader(&self.addresses, self.leader_id, call, answer.state, answer.address_map);
                (changes, step)
            },
        }
    }

    /// The node believed to lead.
    pub fn leader_id(&self) -> (id: u64)
        ensures
            id == self.leader(),
    {
        self.leader_id
    }

    /// The node that the client was pointed at when it was made.
    pub fn node_id(&self) -> (id: u64)
        ensures
            id == self.node(),
    {
        self.node_id
    }

    /// The connections that the caller of a newly made client opens: one
    /// to each node of the directory.
    pub fn connections(&self) -> (r: Vec<Link>)
        ensures
            link_views(r@) == all_open(self.book()),
    {
        self.addresses.connections()
    }

    /// The ids of the known nodes, in the directory's order.
    pub fn node_ids(&self) -> (ids: Vec<u64>)
        ensures
            ids@.len() == self.book().len(),
            forall|i: int| 0 <= i < ids@.len() ==> ids@[i] == (#[trigger] self.book()[i]).0,
    {
        self.addresses.ids()
    }

    /// The raft address of a node.
    pub fn address_of(&self, id: u64) -> (r: Option<String>)
        requires
            self.wf(),
        ensures
            match r {
                Some(a) => crate::routes::knows(self.book(), id) && a@ == crate::routes::address_of(self.book(), id),
                None => !crate::routes::knows(self.book(), id),
            },
    {
        self.addresses.get(id)
    }
}

} // verus!
