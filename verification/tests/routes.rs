use meteora::common::{AddressMap, Link, NodeAddress};
use meteora::routes::AddressBook;
use meteora::session::turn;

fn book(lines: &[(u64, &str)]) -> AddressBook {
    let mut out = AddressBook::new();
    for (id, address) in lines {
        out.insert(*id, address.to_string());
    }
    out
}

fn shown(b: &AddressBook) -> Vec<(u64, String)> {
    b.ids().into_iter().map(|id| (id, b.get(id).unwrap())).collect()
}

#[test]
fn insert_sets_in_place_or_appends() {
    let mut b = book(&[(3, "c"), (1, "a")]);
    assert_eq!(b.len(), 2);
    b.insert(3, "z".to_string());
    b.insert(2, "b".to_string());
    assert_eq!(shown(&b), vec![(3, "z".to_string()), (1, "a".to_string()), (2, "b".to_string())]);
    assert_eq!(b.find(1), Some(1));
    assert_eq!(b.find(9), None);
    assert!(b.contains(2));
    assert!(!b.contains(4));
    assert_eq!(b.id_at(2), 2);
    assert_eq!(b.get(4), None);
}

#[test]
fn owner_is_the_first_node_at_an_address() {
    let b = book(&[(3, "x"), (1, "y"), (2, "x")]);
    assert_eq!(b.owner_of(&"x".to_string()), Some(3));
    assert_eq!(b.owner_of(&"y".to_string()), Some(1));
    assert_eq!(b.owner_of(&"z".to_string()), None);
}

#[test]
fn reconcile_keeps_order_and_appends_what_is_new() {
    let mut local = book(&[(5, "e"), (1, "a"), (3, "c")]);
    let target = book(&[(4, "d"), (3, "C"), (1, "a"), (2, "b")]);
    let links = local.reconcile(&target);
    assert_eq!(
        shown(&local),
        vec![(1, "a".to_string()), (3, "C".to_string()), (4, "d".to_string()), (2, "b".to_string())]
    );
    assert_eq!(links.len(), 4);
    assert!(matches!(&links[0], Link::Close { id: 5 }));
    assert!(matches!(&links[1], Link::Open { id: 3, address } if address == "C"));
    assert!(matches!(&links[2], Link::Open { id: 4, address } if address == "d"));
    assert!(matches!(&links[3], Link::Open { id: 2, address } if address == "b"));
}

#[test]
fn reconcile_with_the_same_directory_changes_nothing() {
    let mut local = book(&[(2, "b"), (1, "a"), (3, "c")]);
    let target = book(&[(1, "a"), (3, "c"), (2, "b")]);
    let links = local.reconcile(&target);
    assert!(links.is_empty());
    assert_eq!(shown(&local), vec![(2, "b".to_string()), (1, "a".to_string()), (3, "c".to_string())]);
    let again = local.reconcile(&target);
    assert!(again.is_empty());
    assert_eq!(local.ids(), vec![2, 1, 3]);
}

#[test]
fn reconcile_with_an_empty_directory_drops_all() {
    let mut local = book(&[(2, "b"), (1, "a")]);
    let links = local.reconcile(&AddressBook::new());
    assert_eq!(local.len(), 0);
    assert_eq!(links.len(), 2);
    assert!(matches!(&links[0], Link::Close { id: 2 }));
    assert!(matches!(&links[1], Link::Close { id: 1 }));
}

#[test]
fn a_membership_map_gives_both_directories() {
    let mut map = AddressMap::new();
    map.insert(2, NodeAddress { kv_address: "k2".to_string(), raft_address: "r2".to_string() });
    map.insert(1, NodeAddress { kv_address: "k1".to_string(), raft_address: "r1".to_string() });
    map.insert(2, NodeAddress { kv_address: "K2".to_string(), raft_address: "R2".to_string() });
    assert_eq!(shown(&map.kv_routes()), vec![(2, "K2".to_string()), (1, "k1".to_string())]);
    assert_eq!(shown(&map.raft_routes()), vec![(2, "R2".to_string()), (1, "r1".to_string())]);
}

#[test]
fn the_cursor_goes_round() {
    assert_eq!(turn(0, 3), 1);
    assert_eq!(turn(1, 3), 2);
    assert_eq!(turn(2, 3), 0);
    assert_eq!(turn(7, 3), 2);
    assert_eq!(turn(0, 1), 0);
    assert_eq!(turn(5, 0), 0);
    assert_eq!(turn(usize::MAX, 4), (((usize::MAX % 4) + 1) % 4));
    let mut seen = vec![false; 3];
    let mut cursor = 1;
    for _ in 0..3 {
        seen[cursor] = true;
        cursor = turn(cursor, 3);
    }
    assert_eq!(seen, vec![true, true, true]);
}
