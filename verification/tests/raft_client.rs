use meteora::common::{AddressMap, AdminRequest, ClientError, ConfChangeType, Link, NodeAddress, Reply, State};
use meteora::raft_client::RaftClient;
use meteora::session::{Call, Step};

fn member(kv: &str, raft: &str) -> NodeAddress {
    NodeAddress { kv_address: kv.to_string(), raft_address: raft.to_string() }
}

fn members(ids: &[u64]) -> AddressMap {
    let mut map = AddressMap::new();
    for id in ids {
        map.insert(*id, member(&format!("0.0.0.0:500{}", id), &format!("0.0.0.0:700{}", id)));
    }
    map
}

fn answer(state: State, leader_id: u64, ids: &[u64]) -> Reply {
    Reply { state, leader_id, address_map: members(ids) }
}

fn admin_call(step: Step<AdminRequest, AddressMap>) -> Call<AdminRequest> {
    match step {
        Step::Call(call) => call,
        Step::Done(r) => panic!("the call ended: {:?}", r),
    }
}

fn admin_done(step: Step<AdminRequest, AddressMap>) -> Result<AddressMap, ClientError> {
    match step {
        Step::Done(r) => r,
        Step::Call(call) => panic!("one more call, to node {}", call.node_id),
    }
}

#[test]
fn home_node_is_found_by_its_raft_address() {
    assert_eq!(RaftClient::home_node("0.0.0.0:7002", &members(&[1, 2, 3])), Some(2));
    assert_eq!(RaftClient::home_node("0.0.0.0:5002", &members(&[1, 2, 3])), None);
    assert_eq!(RaftClient::home_node("0.0.0.0:7001", &members(&[])), None);
}

#[test]
fn bootstrap_takes_leader_and_directory_from_the_status_answer() {
    let client = RaftClient::new("0.0.0.0:7003", &answer(State::OK, 2, &[1, 2, 3]));
    assert_eq!(client.leader_id(), 2);
    assert_eq!(client.node_id(), 3);
    assert_eq!(client.node_ids(), vec![1, 2, 3]);
    assert_eq!(client.address_of(1), Some("0.0.0.0:7001".to_string()));
    assert_eq!(client.address_of(4), None);
}

#[test]
fn status_asks_the_leader_and_returns_the_membership() {
    let mut client = RaftClient::new("0.0.0.0:7001", &answer(State::OK, 1, &[1, 2]));
    let call = admin_call(client.status());
    assert_eq!(call.node_id, 1);
    assert_eq!(call.retries, 0);
    assert!(matches!(&call.request, AdminRequest::Status));
    let (links, step) = client.reply(call, Some(answer(State::OK, 1, &[1, 2, 3])));
    let map = admin_done(step).unwrap();
    assert_eq!(map.len(), 3);
    assert_eq!(map.members[2].id, 3);
    assert_eq!(map.members[2].address.kv_address, "0.0.0.0:5003");
    assert_eq!(client.node_ids(), vec![1, 2, 3]);
    assert_eq!(links.len(), 1);
    match &links[0] {
        Link::Open { id, address } => {
            assert_eq!(*id, 3);
            assert_eq!(address, "0.0.0.0:7003");
        }
        other => panic!("not an open: {:?}", other),
    }
}

#[test]
fn join_carries_the_encoded_address() {
    let mut client = RaftClient::new("0.0.0.0:7001", &answer(State::OK, 1, &[1]));
    let call = admin_call(client.join(2, member("a", "bc")));
    assert_eq!(call.node_id, 1);
    match &call.request {
        AdminRequest::ChangeConfig(change) => {
            assert_eq!(change.node_id, 2);
            assert_eq!(change.change_type, ConfChangeType::AddNode);
            assert_eq!(
                change.context,
                vec![1, 0, 0, 0, 0, 0, 0, 0, 97, 2, 0, 0, 0, 0, 0, 0, 0, 98, 99]
            );
        }
        other => panic!("not a change: {:?}", other),
    }
}

#[test]
fn join_with_carries_the_context_given() {
    let mut client = RaftClient::new("0.0.0.0:7001", &answer(State::OK, 1, &[1]));
    let call = admin_call(client.join_with(5, vec![9, 8, 7]));
    match &call.request {
        AdminRequest::ChangeConfig(change) => {
            assert_eq!(change.node_id, 5);
            assert_eq!(change.change_type, ConfChangeType::AddNode);
            assert_eq!(change.context, vec![9, 8, 7]);
        }
        other => panic!("not a change: {:?}", other),
    }
}

#[test]
fn leave_carries_no_context() {
    let mut client = RaftClient::new("0.0.0.0:7001", &answer(State::OK, 1, &[1, 2, 3]));
    let call = admin_call(client.leave(3));
    assert_eq!(call.node_id, 1);
    match &call.request {
        AdminRequest::ChangeConfig(change) => {
            assert_eq!(change.node_id, 3);
            assert_eq!(change.change_type, ConfChangeType::RemoveNode);
            assert!(change.context.is_empty());
        }
        other => panic!("not a change: {:?}", other),
    }
    let (links, step) = client.reply(call, Some(answer(State::OK, 1, &[1, 2])));
    assert_eq!(admin_done(step).unwrap().len(), 2);
    assert_eq!(client.node_ids(), vec![1, 2]);
    assert_eq!(links.len(), 1);
    assert!(matches!(&links[0], Link::Close { id: 3 }));
}

#[test]
fn admin_call_follows_the_leader() {
    let mut client = RaftClient::new("0.0.0.0:7003", &answer(State::OK, 3, &[1, 2, 3]));
    let call = admin_call(client.leave(1));
    assert_eq!(call.node_id, 3);
    let (_, step) = client.reply(call, Some(answer(State::WRONG_LEADER, 2, &[1, 2, 3])));
    let call = admin_call(step);
    assert_eq!(call.node_id, 2);
    assert_eq!(call.retries, 1);
    assert_eq!(client.leader_id(), 2);
    assert!(matches!(&call.request, AdminRequest::ChangeConfig(c) if c.node_id == 1));
}

#[test]
fn admin_call_fails_on_other_answers_and_on_transport() {
    let mut client = RaftClient::new("0.0.0.0:7001", &answer(State::OK, 1, &[1, 2]));
    let call = admin_call(client.status());
    let (_, step) = client.reply(call, Some(answer(State::NOT_FOUND, 1, &[1, 2])));
    assert_eq!(admin_done(step).err(), Some(ClientError::Failed));
    let call = admin_call(client.status());
    let (links, step) = client.reply(call, None);
    assert!(links.is_empty());
    assert_eq!(admin_done(step).err(), Some(ClientError::Transport));
}

#[test]
fn admin_call_gives_up_after_ten_requests() {
    let mut client = RaftClient::new("0.0.0.0:7001", &answer(State::OK, 1, &[1, 2]));
    let mut call = admin_call(client.status());
    let mut calls = 1;
    let result = loop {
        let (_, step) = client.reply(call, Some(answer(State::WRONG_LEADER, 2, &[1, 2])));
        match step {
            Step::Call(next) => {
                calls += 1;
                call = next;
            }
            Step::Done(r) => break r,
        }
    };
    assert_eq!(calls, 10);
    assert_eq!(result.err(), Some(ClientError::RetryExhausted));
}

#[test]
fn admin_call_ends_where_the_leader_is_unknown() {
    let mut client = RaftClient::new("0.0.0.0:7001", &answer(State::OK, 5, &[1, 2]));
    assert_eq!(admin_done(client.status()).err(), Some(ClientError::NoClient { node_id: 5 }));
}

#[test]
fn join_counts_the_bytes_of_an_address_not_its_characters() {
    let mut client = RaftClient::new("0.0.0.0:7001", &answer(State::OK, 1, &[1]));
    let call = admin_call(client.join(2, member("\u{e9}", "")));
    match &call.request {
        AdminRequest::ChangeConfig(change) => {
            assert_eq!(change.context, vec![2, 0, 0, 0, 0, 0, 0, 0, 0xc3, 0xa9, 0, 0, 0, 0, 0, 0, 0, 0]);
        }
        other => panic!("not a change: {:?}", other),
    }
}

#[test]
fn a_new_raft_client_lists_the_connections_to_open() {
    let client = RaftClient::new("0.0.0.0:7002", &answer(State::OK, 1, &[1, 2, 3]));
    let links = client.connections();
    assert_eq!(links.len(), 3);
    assert!(matches!(&links[0], Link::Open { id: 1, address } if address == "0.0.0.0:7001"));
    assert!(matches!(&links[1], Link::Open { id: 2, address } if address == "0.0.0.0:7002"));
    assert!(matches!(&links[2], Link::Open { id: 3, address } if address == "0.0.0.0:7003"));
}
