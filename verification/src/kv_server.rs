//! The key-value service of a node: what it asks of the consensus engine
//! when a call comes in, and what it answers once the engine has spoken.

use vstd::prelude::*;
use crate::common::{AddressMap, DeleteReq, GetReply, GetReq, PutReq, Reply, State};
use crate::kv_grpc::KvService;

verus! {

/// A change to the store, as it stands in the replicated log.
#[derive(Clone, Debug)]
pub enum Op {
    Put { key: Vec<u8>, val: Vec<u8> },
    Delete { key: Vec<u8> },
}

/// What the service asks of the consensus engine.
#[derive(Debug)]
pub enum Msg {
    /// Put `op` in the log under the number `seq`, and call back when it
    /// is committed or refused.
    Propose { seq: u64, op: Op },
    /// Call back with the present leader and membership.
    Read,
}

/// What the store said of a key.
#[derive(Debug)]
pub enum Lookup {
    Found(Vec<u8>),
    Missing,
    Failed,
}

/// The seconds that the service waits for the engine before it answers
/// with an error.
pub const REPLY_TIMEOUT_SECS: u64 = 2;

/// The key-value service of one node.
#[derive(Clone, Copy, Debug)]
pub struct KVServer {
    /// The number that the next proposal gets.
    pub seq: u64,
    /// The node that the service runs on.
    pub node_id: u64,
}

/// The key that a change is about.
pub open spec fn changed_key(op: Op) -> Seq<u8> {
    match op {
        Op::Put { key, .. } => key@,
        Op::Delete { key } => key@,
    }
}

/// What a change means for the contents of a store: a put sets the value
/// of its key, over any older one; a delete forgets its key, and changes
/// nothing where the key is not there.
pub open spec fn applied(store: Map<Seq<u8>, Seq<u8>>, op: Op) -> Map<Seq<u8>, Seq<u8>> {
    match op {
        Op::Put { key, val } => store.insert(key@, val@),
        Op::Delete { key } => store.remove(key@),
    }
}

/// The contents of a store after a run of changes, applied in their order.
pub open spec fn applied_all(store: Map<Seq<u8>, Seq<u8>>, ops: Seq<Op>) -> Map<Seq<u8>, Seq<u8>>
    decreases ops.len(),
{
    if ops.len() == 0 {
        store
    } else {
        applied(applied_all(store, ops.drop_last()), ops.last())
    }
}

/// `found` is what a store with the contents `store` says of `key` when
/// its read succeeds.
pub open spec fn told(store: Map<Seq<u8>, Seq<u8>>, key: Seq<u8>, found: Lookup) -> bool {
    match found {
        Lookup::Found(value) => store.contains_key(key) && store[key] == value@,
        Lookup::Missing => !store.contains_key(key),
        Lookup::Failed => false,
    }
}

/// The number after `seq`, which starts again at 0 after the largest.
pub open spec fn next_seq(seq: u64) -> u64 {
    if seq == u64::MAX {
        0
    } else {
        (seq + 1) as u64
    }
}

/// The leader that an answer names: the node itself where the engine's
/// hint is negative, else the node of the hint.
pub open spec fn named_leader(node_id: u64, leader_hint: i32) -> u64 {
    if leader_hint >= 0 {
        leader_hint as u64
    } else {
        node_id
    }
}

/// The state of an answer to a write: done where the node leads, else a
/// pointer to the leader.
pub open spec fn write_state(leader_hint: i32) -> State {
    if leader_hint >= 0 {
        State::WRONG_LEADER
    } else {
        State::OK
    }
}

/// The state of an answer to a read.
pub open spec fn read_state(found: Lookup) -> State {
    match found {
        Lookup::Found(_) => State::OK,
        Lookup::Missing => State::NOT_FOUND,
        Lookup::Failed => State::IO_ERROR,
    }
}

/// The value of an answer to a read: what was found, else nothing.
pub open spec fn read_value(found: Lookup) -> Seq<u8> {
    match found {
        Lookup::Found(v) => v@,
        _ => Seq::empty(),
    }
}

fn step_seq(seq: u64) -> (r: u64)
    ensures
        r == next_seq(seq),
{
    if seq == u64::MAX {
        0
    } else {
        seq + 1
    }
}

fn leader_of(node_id: u64, leader_hint: i32) -> (r: u64)
    ensures
        r == named_leader(node_id, leader_hint),
{
    if leader_hint >= 0 {
        leader_hint as u64
    } else {
        node_id
    }
}

impl KVServer {
    /// The service of node `node_id`, before its first call.
    pub fn new(node_id: u64) -> (server: KVServer)
        ensures
            server.seq == 0,
            server.node_id == node_id,
    {
        KVServer { seq: 0, node_id }
    }

    /// The answer to a read, once the engine has called back with its
    /// hint and the membership, and the store has been asked.
    pub fn get_reply(&self, leader_hint: i32, addresses: AddressMap, found: Lookup) -> (reply: GetReply)
        ensures
            reply.state == read_state(found),
            reply.value@ == read_value(found),
            reply.leader_id == named_leader(self.node_id, leader_hint),
            reply.address_map == addresses,
    {
        let leader_id = leader_of(self.node_id, leader_hint);
        match found {
            Lookup::Found(value) => GetReply { state: State::OK, value, leader_id, address_map: addresses },
            Lookup::Missing => GetReply {
                state: State::NOT_FOUND,
                value: Vec::new(),
                leader_id,
                address_map: addresses,
            },
            Lookup::Failed => GetReply {
                state: State::IO_ERROR,
                value: Vec::new(),
                leader_id,
                address_map: addresses,
            },
        }
    }

    /// The answer to a write, once the engine has called back.
    pub fn put_reply(&self, leader_hint: i32, addresses: AddressMap) -> (reply: Reply)
        ensures
            reply.state == write_state(leader_hint),
            reply.leader_id == named_leader(self.node_id, leader_hint),
            reply.address_map == addresses,
    {
        let state = if leader_hint >= 0 {
            State::WRONG_LEADER
        } else {
            State::OK
        };
        Reply { state, leader_id: leader_of(self.node_id, leader_hint), address_map: addresses }
    }

    /// The answer to a removal, once the engine has called back.
    pub fn delete_reply(&self, leader_hint: i32, addresses: AddressMap) -> (reply: Reply)
        ensures
            reply.state == write_state(leader_hint),
            reply.leader_id == named_leader(self.node_id, leader_hint),
            reply.address_map == addresses,
    {
        self.put_reply(leader_hint, addresses)
    }

    /// The answer to a read where the engine did not call back in time.
    pub fn get_timeout() -> (reply: GetReply)
        ensures
            reply.state == State::IO_ERROR,
            reply.value@.len() == 0,
            reply.leader_id == 0,
            reply.address_map.members@.len() == 0,
    {
        GetReply { state: State::IO_ERROR, value: Vec::new(), leader_id: 0, address_map: AddressMap::new() }
    }

    /// The answer to a write or a removal where the engine did not call
    /// back in time.
    pub fn write_timeout() -> (reply: Reply)
        ensures
            reply.state == State::IO_ERROR,
            reply.leader_id == 0,
            reply.address_map.members@.len() == 0,
    {
        Reply { state: State::IO_ERROR, leader_id: 0, address_map: AddressMap::new() }
    }
}

impl KvService for KVServer {
    open spec fn on_get(&self, req: GetReq) -> (Self, Msg) {
        (KVServer { seq: next_seq(self.seq), node_id: self.node_id }, Msg::Read)
    }

    open spec fn on_put(&self, req: PutReq) -> (Self, Msg) {
        (
            KVServer { seq: next_seq(self.seq), node_id: self.node_id },
            Msg::Propose { seq: self.seq, op: Op::Put { key: req.key, val: req.value } },
        )
    }

    open spec fn on_delete(&self, req: DeleteReq) -> (Self, Msg) {
        (
            KVServer { seq: next_seq(self.seq), node_id: self.node_id },
            Msg::Propose { seq: self.seq, op: Op::Delete { key: req.key } },
        )
    }

    /// A read asks the engine for its present view; nothing goes into the
    /// log.
    fn get(&mut self, req: GetReq) -> (msg: Msg) {
        self.seq = step_seq(self.seq);
        Msg::Read
    }

    /// A write is proposed to the engine under the next number.
    fn put(&mut self, req: PutReq) -> (msg: Msg) {
        let seq = self.seq;
        self.seq = step_seq(self.seq);
        Msg::Propose { seq, op: Op::Put { key: req.key, val: req.value } }
    }

    /// A removal is proposed to the engine under the next number.
    fn delete(&mut self, req: DeleteReq) -> (msg: Msg) {
        let seq = self.seq;
        self.seq = step_seq(self.seq);
        Msg::Propose { seq, op: Op::Delete { key: req.key } }
    }
}

} // verus!
