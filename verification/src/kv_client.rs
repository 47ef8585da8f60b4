//! The client of the key-value service: reads go round the nodes, writes
//! go to the leader, and every answer renews the directory.

use vstd::prelude::*;
use crate::common::{ClientError, DeleteReq, GetReply, GetReq, Link, PutReq, Reply, Request};
use crate::routes::{
    all_open, directory, distinct, knows, kv_lines, led_by, lemma_led_by, lemma_lines, lemma_owner_known,
    link_views, links, owner, position, raft_lines, reconciled, AddressBook,
};
use crate::session::{after_leader, after_read, aim, aimed, leader_step, read_step, turn, turned, Call, Step};

verus! {

/// What a client of the key-value service knows of the cluster.
#[derive(Debug)]
pub struct KVClient {
    address: String,
    leader_id: u64,
    addresses: AddressBook,
    next_index: usize,
    node_id: u64,
}

impl KVClient {
    /// The address the client was made with.
    pub closed spec fn home(&self) -> Seq<char> {
        self.address@
    }

    /// The node believed to lead.
    pub closed spec fn leader(&self) -> u64 {
        self.leader_id
    }

    /// The node that the next read goes to.
    pub closed spec fn node(&self) -> u64 {
        self.node_id
    }

    /// The place of the read target in the directory.
    pub closed spec fn cursor(&self) -> usize {
        self.next_index
    }

    /// The directory: node ids with their kv addresses.
    pub closed spec fn book(&self) -> Seq<(u64, Seq<char>)> {
        self.addresses@
    }

    /// No id stands twice in the directory.
    pub open spec fn wf(&self) -> bool {
        distinct(self.book())
    }

    /// The read target is the node at the cursor's place in the directory.
    pub open spec fn aligned(&self) -> bool {
        self.cursor() < self.book().len() && self.book()[self.cursor() as int].0 == self.node()
    }

    /// The client is what the answer `status` of the node at the raft
    /// address `address` to a status call makes it: the leader is the one
    /// that the answer names; the read target is the node that stands at
    /// `address`, and the cursor is on it; the directory holds the kv
    /// addresses of the answer's membership, that node first.
    pub open spec fn made_from(&self, address: Seq<char>, status: Reply) -> bool {
        let lines = kv_lines(status.address_map.members@);
        &&& self.wf()
        &&& self.home() == address
        &&& self.leader() == status.leader_id
        &&& Some(self.node()) == owner(raft_lines(status.address_map.members@), address)
        &&& self.book() == led_by(lines, self.node())
        &&& directory(self.book()) == directory(lines)
        &&& self.cursor() == 0
        &&& self.aligned()
    }

    /// A client made from the answer of the node at the raft address
    /// `address` to a status call. The caller opens a connection to every
    /// node of the directory, as `connections` lists them.
    pub fn new(address: &str, status: &Reply) -> (client: KVClient)
        requires
            owner(raft_lines(status.address_map.members@), address@) is Some,
        ensures
            client.made_from(address@, *status),
    {
        let home = address.to_owned();
        let raft = status.address_map.raft_routes();
        let target = status.address_map.kv_routes();
        let node_id = match raft.owner_of(&home) {
            Some(id) => id,
            None => 0,
        };
        proof {
            lemma_lines(status.address_map.members@);
            lemma_owner_known(raft@, home@);
            let i = position(raft@, node_id);
            assert(target@[i].0 == node_id);
            lemma_led_by(target@, node_id);
        }
        let mut addresses = AddressBook::new();
        addresses.insert(node_id, String::new());
        assert(addresses@ =~= seq![(node_id, Seq::<char>::empty())]);
        let _opened = addresses.reconcile(&target);
        KVClient { address: home, leader_id: status.leader_id, addresses, next_index: 0, node_id }
    }

    /// As `new`, for any answer: `None` where the answer names no node at
    /// `address`.
    pub fn bootstrap(address: &str, status: &Reply) -> (r: Option<KVClient>)
        ensures
            match r {
                Some(client) => client.made_from(address@, *status),
                None => owner(raft_lines(status.address_map.members@), address@) is None,
            },
    {
        let raft = status.address_map.raft_routes();
        match raft.owner_of(&address.to_owned()) {
            Some(_) => Some(KVClient::new(address, status)),
            None => None,
        }
    }

    /// Begins a read of `key`: the request goes to the node whose turn it
    /// is.
    pub fn get(&mut self, key: Vec<u8>) -> (step: Step<Request, Vec<u8>>)
        requires
            old(self).wf(),
        ensures
            *final(self) == *old(self),
            step == aimed::<Request, Vec<u8>>(old(self).book(), old(self).node(), Request::Get(GetReq { key }), 0),
    {
        aim(&self.addresses, self.node_id, Request::Get(GetReq { key }), 0)
    }

    /// Takes the answer to a read, or `None` where the call did not get
    /// through, and decides the next step.
    ///
    /// An answer renews the directory and the believed leader and moves
    /// the read target one place on. `OK` ends the call with the value,
    /// `NOT_FOUND` with the miss; any other answer asks the next node,
    /// until the call has sent all the requests it may.
    pub fn get_reply(&mut self, call: Call<Request>, reply: Option<GetReply>) -> (r: (
        Vec<Link>,
        Step<Request, Vec<u8>>,
    ))
        requires
            old(self).wf(),
        ensures
            final(self).wf(),
            final(self).home() == old(self).home(),
            match reply {
                None => *final(self) == *old(self) && r.0@.len() == 0 && r.1 == Step::<
                    Request,
                    Vec<u8>,
                >::Done(Err(ClientError::Transport)),
                Some(answer) => {
                    let target = kv_lines(answer.address_map.members@);
                    let book = reconciled(old(self).book(), target);
                    &&& final(self).book() == book
                    &&& directory(book) == directory(target)
                    &&& final(self).leader() == answer.leader_id
                    &&& final(self).cursor() == turned(old(self).cursor() as int, book.len() as int)
                    &&& final(self).node() == (if book.len() > 0 {
                        book[final(self).cursor() as int].0
                    } else {
                        old(self).node()
                    })
                    &&& book.len() > 0 ==> final(self).aligned()
                    &&& link_views(r.0@) == links(old(self).book(), target)
                    &&& r.1 == read_step(book, final(self).node(), call, answer.state, answer.value)
                },
            },
    {
        match reply {
            None => (Vec::new(), Step::Done(Err(ClientError::Transport))),
            Some(answer) => {
                let target = answer.address_map.kv_routes();
                let changes = self.addresses.reconcile(&target);
                self.leader_id = answer.leader_id;
                self.next_index = turn(self.next_index, self.addresses.len());
                if self.addresses.len() > 0 {
                    self.node_id = self.addresses.id_at(self.next_index);
                }
                let step = after_read(&self.addresses, self.node_id, call, answer.state, answer.value);
                (changes, step)
            },
        }
    }

    /// Begins a write of `value` under `key`: the request goes to the
    /// believed leader.
    pub fn put(&mut self, key: Vec<u8>, value: Vec<u8>) -> (step: Step<Request, ()>)
        requires
            old(self).wf(),
        ensures
            *final(self) == *old(self),
            step == aimed::<Request, ()>(
                old(self).book(),
                old(self).leader(),
                Request::Put(PutReq { key, value }),
                0,
            ),
    {
        aim(&self.addresses, self.leader_id, Request::Put(PutReq { key, value }), 0)
    }

    /// Begins the removal of `key`: the request goes to the believed
    /// leader.
    pub fn delete(&mut self, key: Vec<u8>) -> (step: Step<Request, ()>)
        requires
            old(self).wf(),
        ensures
            *final(self) == *old(self),
            step == aimed::<Request, ()>(old(self).book(), old(self).leader(), Request::Delete(DeleteReq { key }), 0),
    {
        aim(&self.addresses, self.leader_id, Request::Delete(DeleteReq { key }), 0)
    }

    /// Takes the answer to a write or a removal, or `None` where the call
    /// did not get through, and decides the next step.
    ///
    /// An answer renews the directory and the believed leader. `OK` ends
    /// the call; `WRONG_LEADER` asks the leader that the answer names,
    /// until the call has sent all the requests it may; any other answer
    /// ends the call in failure.
    pub fn write_reply(&mut self, call: Call<Request>, reply: Option<Reply>) -> (r: (Vec<Link>, Step<Request, ()>))
        requires
            old(self).wf(),
        ensures
            final(self).wf(),
            final(self).home() == old(self).home(),
            final(self).cursor() == old(self).cursor(),
            final(self).node() == old(self).node(),
            match reply {
                None => *final(self) == *old(self) && r.0@.len() == 0 && r.1 == Step::<Request, ()>::Done(
                    Err(ClientError::Transport),
                ),
                Some(answer) => {
                    let target = kv_lines(answer.address_map.members@);
                    let book = reconciled(old(self).book(), target);
                    &&& final(self).book() == book
                    &&& directory(book) == directory(target)
                    &&& final(self).leader() == answer.leader_id
                    &&& link_views(r.0@) == links(old(self).book(), target)
                    &&& r.1 == leader_step(book, answer.leader_id, call, answer.state, ())
                },
            },
    {
        match reply {
            None => (Vec::new(), Step::Done(Err(ClientError::Transport))),
            Some(answer) => {
                let target = answer.address_map.kv_routes();
                let changes = self.addresses.reconcile(&target);
                self.leader_id = answer.leader_id;
                let step = after_leader(&self.addresses, self.leader_id, call, answer.state, ());
                (changes, step)
            },
        }
    }

    /// The address the client was made with.
    pub fn address(&self) -> (r: String)
        ensures
            r@ == self.home(),
    {
        self.address.clone()
    }

    /// The node believed to lead.
    pub fn leader_id(&self) -> (id: u64)
        ensures
            id == self.leader(),
    {
        self.leader_id
    }

    /// The node that the next read goes to.
    pub fn node_id(&self) -> (id: u64)
        ensures
            id == self.node(),
    {
        self.node_id
    }

    /// The place of the read target in the directory.
    pub fn next_index(&self) -> (i: usize)
        ensures
            i == self.cursor(),
    {
        self.next_index
    }

    /// The connections that the caller of a newly made client opens: one
    /// to each node of the directory.
    pub fn connections(&self) -> (r: Vec<Link>)
        ensures
            link_views(r@) == all_open(self.book()),
    {
        self.addresses.connections()
    }

    /// The ids of the known nodes, in the directory's order.
    pub fn node_ids(&self) -> (ids: Vec<u64>)
        ensures
            ids@.len() == self.book().len(),
            forall|i: int| 0 <= i < ids@.len() ==> ids@[i] == (#[trigger] self.book()[i]).0,
    {
        self.addresses.ids()
    }

    /// The kv address of a node.
    pub fn address_of(&self, id: u64) -> (r: Option<String>)
        requires
            self.wf(),
        ensures
            match r {
                Some(a) => knows(self.book(), id) && a@ == crate::routes::address_of(self.book(), id),
                None => !knows(self.book(), id),
            },
    {
        self.addresses.get(id)
    }
}

} // verus!
