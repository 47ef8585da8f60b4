use meteora::common::{AddressMap, ClientError, GetReply, Link, NodeAddress, Reply, Request, State};
use meteora::kv_client::KVClient;
use meteora::session::{Call, Step, MAX_RETRY};

fn node(kv: &str, raft: &str) -> NodeAddress {
    NodeAddress { kv_address: kv.to_string(), raft_address: raft.to_string() }
}

fn cluster(ids: &[u64]) -> AddressMap {
    let mut map = AddressMap::new();
    for id in ids {
        map.insert(*id, node(&format!("0.0.0.0:500{}", id), &format!("0.0.0.0:700{}", id)));
    }
    map
}

fn read_answer(state: State, value: &[u8], leader_id: u64, ids: &[u64]) -> GetReply {
    GetReply { state, value: value.to_vec(), leader_id, address_map: cluster(ids) }
}

fn write_answer(state: State, leader_id: u64, ids: &[u64]) -> Reply {
    Reply { state, leader_id, address_map: cluster(ids) }
}

fn client_at(home: u64, leader_id: u64, ids: &[u64]) -> KVClient {
    KVClient::new(&format!("0.0.0.0:700{}", home), &write_answer(State::OK, leader_id, ids))
}

fn expect_call<T: std::fmt::Debug>(step: Step<Request, T>) -> Call<Request> {
    match step {
        Step::Call(call) => call,
        Step::Done(r) => panic!("the call ended: {:?}", r),
    }
}

fn expect_done<T>(step: Step<Request, T>) -> Result<T, ClientError> {
    match step {
        Step::Done(r) => r,
        Step::Call(call) => panic!("one more call, to node {}", call.node_id),
    }
}

#[test]
fn a_new_client_is_seeded_from_the_status_answer() {
    let client = client_at(2, 3, &[1, 2, 3]);
    assert_eq!(client.leader_id(), 3);
    assert_eq!(client.node_id(), 2);
    assert_eq!(client.next_index(), 0);
    assert_eq!(client.node_ids(), vec![2, 1, 3]);
    assert_eq!(client.address(), "0.0.0.0:7002");
    assert_eq!(client.address_of(1), Some("0.0.0.0:5001".to_string()));
    assert_eq!(client.address_of(2), Some("0.0.0.0:5002".to_string()));
    assert_eq!(client.address_of(4), None);
}

#[test]
fn a_new_client_opens_one_connection_for_each_node() {
    let client = client_at(2, 1, &[1, 2, 3]);
    let links = client.connections();
    assert_eq!(links.len(), 3);
    assert!(matches!(&links[0], Link::Open { id: 2, address } if address == "0.0.0.0:5002"));
    assert!(matches!(&links[1], Link::Open { id: 1, address } if address == "0.0.0.0:5001"));
    assert!(matches!(&links[2], Link::Open { id: 3, address } if address == "0.0.0.0:5003"));
}

#[test]
fn bootstrap_is_none_where_no_node_stands_at_the_address() {
    assert!(KVClient::bootstrap("0.0.0.0:7009", &write_answer(State::OK, 3, &[1, 2, 3])).is_none());
    assert!(KVClient::bootstrap("0.0.0.0:5001", &write_answer(State::OK, 3, &[1, 2, 3])).is_none());
    assert!(KVClient::bootstrap("0.0.0.0:7001", &write_answer(State::OK, 0, &[])).is_none());
    let client = KVClient::bootstrap("0.0.0.0:7003", &write_answer(State::OK, 1, &[1, 2, 3])).unwrap();
    assert_eq!(client.leader_id(), 1);
    assert_eq!(client.node_id(), 3);
    assert_eq!(client.next_index(), 0);
    assert_eq!(client.node_ids(), vec![3, 1, 2]);
}

#[test]
fn a_later_line_for_an_id_counts() {
    let mut map = AddressMap::new();
    map.insert(1, node("a:1", "a:2"));
    map.insert(2, node("b:1", "b:2"));
    map.insert(1, node("c:1", "c:2"));
    assert_eq!(map.len(), 3);
    let status = Reply { state: State::OK, leader_id: 1, address_map: map };
    assert!(KVClient::bootstrap("a:2", &status).is_none());
    let client = KVClient::new("c:2", &status);
    assert_eq!(client.node_id(), 1);
    assert_eq!(client.node_ids(), vec![1, 2]);
    assert_eq!(client.address_of(1), Some("c:1".to_string()));
}

#[test]
fn get_goes_to_the_read_target_with_the_key() {
    let mut client = client_at(2, 1, &[1, 2, 3]);
    let call = expect_call(client.get(b"alpha".to_vec()));
    assert_eq!(call.node_id, 2);
    assert_eq!(call.retries, 0);
    match call.request {
        Request::Get(req) => assert_eq!(req.key, b"alpha".to_vec()),
        other => panic!("not a read: {:?}", other),
    }
}

#[test]
fn get_returns_the_value_of_an_ok_answer() {
    let mut client = client_at(1, 1, &[1]);
    let call = expect_call(client.get(b"alpha".to_vec()));
    let (_, step) = client.get_reply(call, Some(read_answer(State::OK, b"1", 1, &[1])));
    assert_eq!(expect_done(step), Ok(b"1".to_vec()));
}

#[test]
fn get_reports_a_missing_key() {
    let mut client = client_at(1, 1, &[1]);
    let call = expect_call(client.get(b"alpha".to_vec()));
    let (_, step) = client.get_reply(call, Some(read_answer(State::NOT_FOUND, b"", 1, &[1])));
    assert_eq!(expect_done(step), Err(ClientError::NotFound));
}

#[test]
fn get_fails_fast_where_the_call_does_not_get_through() {
    let mut client = client_at(2, 1, &[1, 2]);
    let call = expect_call(client.get(b"alpha".to_vec()));
    let (links, step) = client.get_reply(call, None);
    assert!(links.is_empty());
    assert_eq!(expect_done(step), Err(ClientError::Transport));
    assert_eq!(client.node_ids(), vec![2, 1]);
    assert_eq!(client.node_id(), 2);
    assert_eq!(client.next_index(), 0);
    assert_eq!(client.leader_id(), 1);
}

#[test]
fn an_answer_renews_leader_and_directory() {
    let mut client = client_at(1, 1, &[1]);
    let call = expect_call(client.get(b"k".to_vec()));
    let (links, _) = client.get_reply(call, Some(read_answer(State::OK, b"v", 2, &[1, 2, 3])));
    assert_eq!(client.node_ids(), vec![1, 2, 3]);
    assert_eq!(client.leader_id(), 2);
    assert_eq!(client.address_of(2), Some("0.0.0.0:5002".to_string()));
    assert_eq!(links.len(), 2);
    match &links[0] {
        Link::Open { id, address } => {
            assert_eq!(*id, 2);
            assert_eq!(address, "0.0.0.0:5002");
        }
        other => panic!("not an open: {:?}", other),
    }
    assert!(matches!(&links[1], Link::Open { id: 3, .. }));
    assert_eq!(client.next_index(), 1);
    assert_eq!(client.node_id(), 2);
    assert_eq!(client.address(), "0.0.0.0:7001");
}

#[test]
fn reads_go_round_a_steady_cluster() {
    let mut client = client_at(2, 1, &[1, 2, 3]);
    let mut targets = Vec::new();
    for _ in 0..3 {
        let call = expect_call(client.get(b"k".to_vec()));
        targets.push(call.node_id);
        let (links, step) = client.get_reply(call, Some(read_answer(State::OK, b"v", 1, &[3, 1, 2])));
        assert!(links.is_empty());
        assert_eq!(expect_done(step), Ok(b"v".to_vec()));
        assert!(client.next_index() < 3);
        assert_eq!(client.node_ids(), vec![2, 1, 3]);
    }
    assert_eq!(targets, vec![2, 1, 3]);
    assert_eq!(client.node_id(), 2);
}

#[test]
fn reads_go_round_after_a_write() {
    let mut client = client_at(3, 1, &[1, 2, 3]);
    let call = expect_call(client.put(b"k".to_vec(), b"v".to_vec()));
    client.write_reply(call, Some(write_answer(State::OK, 1, &[1, 2, 3])));
    let mut targets = Vec::new();
    for _ in 0..3 {
        let call = expect_call(client.get(b"k".to_vec()));
        targets.push(call.node_id);
        client.get_reply(call, Some(read_answer(State::OK, b"v", 1, &[1, 2, 3])));
    }
    assert_eq!(targets, vec![3, 1, 2]);
}

#[test]
fn get_asks_the_next_node_after_a_failed_answer() {
    let mut client = client_at(1, 1, &[1, 2, 3]);
    let call = expect_call(client.get(b"k".to_vec()));
    assert_eq!(call.node_id, 1);
    let (_, step) = client.get_reply(call, Some(read_answer(State::IO_ERROR, b"", 1, &[1, 2, 3])));
    let call = expect_call(step);
    assert_eq!(call.node_id, 2);
    assert_eq!(call.retries, 1);
    assert!(matches!(&call.request, Request::Get(req) if req.key == b"k".to_vec()));
    let (_, step) = client.get_reply(call, Some(read_answer(State::WRONG_LEADER, b"", 1, &[1, 2, 3])));
    let call = expect_call(step);
    assert_eq!(call.node_id, 3);
    assert_eq!(call.retries, 2);
}

#[test]
fn get_gives_up_after_ten_requests() {
    let mut client = client_at(1, 1, &[1, 2, 3]);
    let mut call = expect_call(client.get(b"k".to_vec()));
    let mut calls = 1;
    let result = loop {
        let (_, step) = client.get_reply(call, Some(read_answer(State::IO_ERROR, b"", 1, &[1, 2, 3])));
        match step {
            Step::Call(next) => {
                calls += 1;
                assert_eq!(next.retries, calls - 1);
                call = next;
            }
            Step::Done(r) => break r,
        }
    };
    assert_eq!(MAX_RETRY, 10);
    assert_eq!(calls, 10);
    assert_eq!(result, Err(ClientError::RetryExhausted));
}

#[test]
fn get_ends_where_an_answer_leaves_no_node() {
    let mut client = client_at(2, 1, &[1, 2]);
    let call = expect_call(client.get(b"k".to_vec()));
    let (links, step) = client.get_reply(call, Some(read_answer(State::IO_ERROR, b"", 0, &[])));
    assert_eq!(links.len(), 2);
    assert!(matches!(&links[0], Link::Close { id: 2 }));
    assert!(matches!(&links[1], Link::Close { id: 1 }));
    assert!(client.node_ids().is_empty());
    assert_eq!(client.next_index(), 0);
    assert_eq!(client.node_id(), 2);
    assert_eq!(client.leader_id(), 0);
    assert_eq!(expect_done(step), Err(ClientError::NoClient { node_id: 2 }));
}

#[test]
fn a_read_has_nowhere_to_go_where_its_target_has_left() {
    let mut client = client_at(3, 1, &[1, 2, 3]);
    let call = expect_call(client.put(b"alpha".to_vec(), b"1".to_vec()));
    client.write_reply(call, Some(write_answer(State::OK, 1, &[1, 2])));
    assert_eq!(client.node_id(), 3);
    let step = client.get(b"alpha".to_vec());
    assert_eq!(expect_done(step), Err(ClientError::NoClient { node_id: 3 }));
}

#[test]
fn put_goes_to_the_believed_leader() {
    let mut client = client_at(1, 2, &[1, 2, 3]);
    let call = expect_call(client.put(b"alpha".to_vec(), b"1".to_vec()));
    assert_eq!(call.node_id, 2);
    assert_eq!(call.retries, 0);
    match &call.request {
        Request::Put(req) => {
            assert_eq!(req.key, b"alpha".to_vec());
            assert_eq!(req.value, b"1".to_vec());
        }
        other => panic!("not a write: {:?}", other),
    }
    let (links, step) = client.write_reply(call, Some(write_answer(State::OK, 2, &[1, 2, 3])));
    assert!(links.is_empty());
    assert_eq!(expect_done(step), Ok(()));
    assert_eq!(client.leader_id(), 2);
    assert_eq!(client.node_ids(), vec![1, 2, 3]);
    assert_eq!(client.node_id(), 1);
    assert_eq!(client.next_index(), 0);
}

#[test]
fn delete_goes_to_the_believed_leader() {
    let mut client = client_at(1, 3, &[1, 2, 3]);
    let call = expect_call(client.delete(b"alpha".to_vec()));
    assert_eq!(call.node_id, 3);
    assert_eq!(call.retries, 0);
    assert!(matches!(&call.request, Request::Delete(req) if req.key == b"alpha".to_vec()));
    let (_, step) = client.write_reply(call, Some(write_answer(State::OK, 3, &[1, 2, 3])));
    assert_eq!(expect_done(step), Ok(()));
}

#[test]
fn a_write_after_a_write_goes_to_the_leader_of_the_answer() {
    let mut client = client_at(1, 1, &[1, 2, 3]);
    let call = expect_call(client.put(b"a".to_vec(), b"1".to_vec()));
    client.write_reply(call, Some(write_answer(State::OK, 2, &[1, 2, 3])));
    let call = expect_call(client.delete(b"a".to_vec()));
    assert_eq!(call.node_id, 2);
}

#[test]
fn wrong_leader_redirects_once() {
    let mut client = client_at(3, 3, &[1, 2, 3]);
    let call = expect_call(client.put(b"x".to_vec(), b"1".to_vec()));
    assert_eq!(call.node_id, 3);
    let (_, step) = client.write_reply(call, Some(write_answer(State::WRONG_LEADER, 2, &[1, 2, 3])));
    let call = expect_call(step);
    assert_eq!(call.node_id, 2);
    assert_eq!(call.retries, 1);
    assert!(matches!(&call.request, Request::Put(req) if req.key == b"x".to_vec() && req.value == b"1".to_vec()));
    assert_eq!(client.leader_id(), 2);
    let (links, step) = client.write_reply(call, Some(write_answer(State::OK, 2, &[1, 2, 3])));
    assert!(links.is_empty());
    assert_eq!(expect_done(step), Ok(()));
}

#[test]
fn a_chain_of_redirects_ends_at_the_leader() {
    let mut client = client_at(1, 1, &[1, 2, 3]);
    let mut call = expect_call(client.put(b"x".to_vec(), b"1".to_vec()));
    let mut asked = vec![call.node_id];
    for leader in [2, 3] {
        let (_, step) = client.write_reply(call, Some(write_answer(State::WRONG_LEADER, leader, &[1, 2, 3])));
        call = expect_call(step);
        asked.push(call.node_id);
    }
    let (_, step) = client.write_reply(call, Some(write_answer(State::OK, 3, &[1, 2, 3])));
    assert_eq!(expect_done(step), Ok(()));
    assert_eq!(asked, vec![1, 2, 3]);
    assert_eq!(client.leader_id(), 3);
}

#[test]
fn the_tenth_request_may_still_succeed() {
    let mut client = client_at(1, 1, &[1, 2]);
    let mut call = expect_call(client.put(b"x".to_vec(), b"1".to_vec()));
    for n in 1..10 {
        let leader = if n % 2 == 0 { 1 } else { 2 };
        let (_, step) = client.write_reply(call, Some(write_answer(State::WRONG_LEADER, leader, &[1, 2])));
        call = expect_call(step);
        assert_eq!(call.retries, n);
    }
    let (_, step) = client.write_reply(call, Some(write_answer(State::OK, 2, &[1, 2])));
    assert_eq!(expect_done(step), Ok(()));
}

#[test]
fn write_gives_up_after_ten_requests() {
    let mut client = client_at(1, 1, &[1, 2, 3]);
    let mut call = expect_call(client.put(b"x".to_vec(), b"1".to_vec()));
    let mut calls = 1;
    let result = loop {
        let leader = if calls % 2 == 0 { 1 } else { 2 };
        let (_, step) = client.write_reply(call, Some(write_answer(State::WRONG_LEADER, leader, &[1, 2, 3])));
        match step {
            Step::Call(next) => {
                calls += 1;
                assert_eq!(next.node_id, leader);
                call = next;
            }
            Step::Done(r) => break r,
        }
    };
    assert_eq!(calls, 10);
    assert_eq!(result, Err(ClientError::RetryExhausted));
}

#[test]
fn write_fails_on_an_io_error_answer() {
    let mut client = client_at(1, 1, &[1, 2]);
    let call = expect_call(client.put(b"x".to_vec(), b"1".to_vec()));
    let (_, step) = client.write_reply(call, Some(write_answer(State::IO_ERROR, 0, &[])));
    assert_eq!(expect_done(step), Err(ClientError::Failed));
    assert!(client.node_ids().is_empty());
}

#[test]
fn write_fails_fast_where_the_call_does_not_get_through() {
    let mut client = client_at(1, 2, &[1, 2]);
    let call = expect_call(client.delete(b"x".to_vec()));
    let (links, step) = client.write_reply(call, None);
    assert!(links.is_empty());
    assert_eq!(expect_done(step), Err(ClientError::Transport));
    assert_eq!(client.leader_id(), 2);
    assert_eq!(client.node_ids(), vec![1, 2]);
}

#[test]
fn write_ends_where_the_named_leader_is_unknown() {
    let mut client = client_at(1, 1, &[1, 2, 3]);
    let call = expect_call(client.put(b"x".to_vec(), b"1".to_vec()));
    let (_, step) = client.write_reply(call, Some(write_answer(State::WRONG_LEADER, 9, &[1, 2, 3])));
    assert_eq!(expect_done(step), Err(ClientError::NoClient { node_id: 9 }));
}

#[test]
fn write_begins_with_no_client_where_the_leader_is_unknown() {
    let mut client = client_at(1, 7, &[1, 2]);
    let step = client.put(b"y".to_vec(), b"2".to_vec());
    assert_eq!(expect_done(step), Err(ClientError::NoClient { node_id: 7 }));
}

#[test]
fn membership_shrink_drops_the_node_and_closes_its_connection() {
    let mut client = client_at(1, 1, &[1, 2, 3]);
    let call = expect_call(client.put(b"x".to_vec(), b"2".to_vec()));
    let (links, _) = client.write_reply(call, Some(write_answer(State::OK, 1, &[1, 2])));
    assert_eq!(client.node_ids(), vec![1, 2]);
    assert_eq!(client.address_of(3), None);
    assert_eq!(links.len(), 1);
    assert!(matches!(&links[0], Link::Close { id: 3 }));
}

#[test]
fn a_changed_address_is_replaced_in_place() {
    let mut client = client_at(1, 1, &[1, 2, 3]);
    let mut map = AddressMap::new();
    map.insert(3, node("0.0.0.0:5003", "0.0.0.0:7003"));
    map.insert(2, node("10.0.0.2:5002", "0.0.0.0:7002"));
    map.insert(4, node("0.0.0.0:5004", "0.0.0.0:7004"));
    map.insert(1, node("0.0.0.0:5001", "0.0.0.0:7001"));
    let call = expect_call(client.put(b"x".to_vec(), b"2".to_vec()));
    let (links, _) = client.write_reply(call, Some(Reply { state: State::OK, leader_id: 1, address_map: map }));
    assert_eq!(client.node_ids(), vec![1, 2, 3, 4]);
    assert_eq!(client.address_of(2), Some("10.0.0.2:5002".to_string()));
    assert_eq!(links.len(), 2);
    match &links[0] {
        Link::Open { id, address } => {
            assert_eq!(*id, 2);
            assert_eq!(address, "10.0.0.2:5002");
        }
        other => panic!("not an open: {:?}", other),
    }
    match &links[1] {
        Link::Open { id, address } => {
            assert_eq!(*id, 4);
            assert_eq!(address, "0.0.0.0:5004");
        }
        other => panic!("not an open: {:?}", other),
    }
}

#[test]
fn single_node_put_get_delete_get() {
    let mut map = AddressMap::new();
    map.insert(1, node(":5000", ":7000"));
    let status = Reply { state: State::OK, leader_id: 1, address_map: map.clone() };
    let mut client = KVClient::new(":7000", &status);
    let call = expect_call(client.put(b"alpha".to_vec(), b"1".to_vec()));
    assert_eq!(call.node_id, 1);
    let ok = Reply { state: State::OK, leader_id: 1, address_map: map.clone() };
    assert_eq!(expect_done(client.write_reply(call, Some(ok)).1), Ok(()));
    let call = expect_call(client.get(b"alpha".to_vec()));
    assert_eq!(call.node_id, 1);
    let hit = GetReply { state: State::OK, value: b"1".to_vec(), leader_id: 1, address_map: map.clone() };
    assert_eq!(expect_done(client.get_reply(call, Some(hit)).1), Ok(b"1".to_vec()));
    let call = expect_call(client.delete(b"alpha".to_vec()));
    let ok = Reply { state: State::OK, leader_id: 1, address_map: map.clone() };
    assert_eq!(expect_done(client.write_reply(call, Some(ok)).1), Ok(()));
    let call = expect_call(client.get(b"alpha".to_vec()));
    assert_eq!(call.node_id, 1);
    let miss = GetReply { state: State::NOT_FOUND, value: Vec::new(), leader_id: 1, address_map: map };
    assert_eq!(expect_done(client.get_reply(call, Some(miss)).1), Err(ClientError::NotFound));
}
