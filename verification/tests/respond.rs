use bm_client::clock::Timespec;
use bm_client::inventory::{inventory_vector_of, Inventory};
use bm_client::known_nodes::{KnownNode, KnownNodes};
use bm_client::message::addr::AddrMessage;
use bm_client::message::getdata::GetdataMessage;
use bm_client::message::inv::InvMessage;
use bm_client::message::object::{GetPubKeyV4, ObjectBody, ObjectMessage, ObjectType};
use bm_client::message::{InventoryVector, Message};
use bm_client::net::Endpoint;
use bm_client::respond::{accept_object, collect_objects, learn_nodes, request_missing, respond};

const EXPIRY: i64 = 0x0007_0605_0403_0201;

fn known_object() -> ObjectMessage {
    ObjectMessage::new(
        0x101b07,
        Timespec::new(EXPIRY, 0),
        ObjectType::GetPubKey,
        4,
        254,
        ObjectBody::GetPubKeyV4(GetPubKeyV4::new()),
    )
}

fn other_object(nonce: u64) -> ObjectMessage {
    ObjectMessage::new(
        nonce,
        Timespec::new(5, 0),
        ObjectType::GetPubKey,
        4,
        1,
        ObjectBody::GetPubKeyV4(GetPubKeyV4::new()),
    )
}

fn hash(seed: u8) -> InventoryVector {
    InventoryVector::new(&[seed; 32])
}

fn now() -> Timespec {
    Timespec::new(EXPIRY - 300, 0)
}

#[test]
fn inventory_hash_is_the_start_of_the_double_sha512() {
    let expected = [
        0xaf, 0x77, 0x46, 0x5e, 0x95, 0xf6, 0xda, 0x48, 0x35, 0x26, 0xf8, 0xc9, 0xfd, 0x29, 0x0b,
        0xd2, 0x79, 0x25, 0xe1, 0x9f, 0xcc, 0x56, 0x1e, 0xec, 0x8e, 0x5c, 0x09, 0xee, 0xb5, 0x0d,
        0xdb, 0x8d,
    ];
    assert_eq!(&expected, inventory_vector_of(&known_object().payload()).hash());
}

#[test]
fn inventory_holds_each_hash_once() {
    let mut inventory = Inventory::new();
    assert_eq!(0, inventory.len());
    assert!(!inventory.contains(&hash(1)));
    assert_eq!(None, inventory.get(&hash(1)));
    assert!(inventory.insert(hash(1), other_object(1)));
    assert!(inventory.insert(hash(2), other_object(2)));
    assert!(!inventory.insert(hash(1), other_object(3)));
    assert_eq!(2, inventory.len());
    assert!(inventory.contains(&hash(1)));
    assert!(inventory.contains(&hash(2)));
    assert!(!inventory.contains(&hash(3)));
    assert_eq!(Some(other_object(1)), inventory.get(&hash(1)));
    assert_eq!(Some(other_object(2)), inventory.get(&hash(2)));
    assert_eq!(vec![hash(1), hash(2)], inventory.iter_hashes());
}

#[test]
fn version_is_answered_with_verack() {
    let mut known_nodes = KnownNodes::new(vec![]);
    let mut inventory = Inventory::new();
    let version = bm_client::connection::create_version_message(
        &bm_client::config::Config::new(1, 2, String::new(), 3, vec![]).unwrap(),
        Endpoint::from_ipv4(1, 2, 3, 4, 5),
        now(),
    );
    let response = respond(&version, &mut known_nodes, &mut inventory, now());
    assert_eq!(1, response.replies.len());
    assert!(matches!(response.replies[0], Message::Verack));
    assert!(response.gossip.is_none());
    assert_eq!(0, known_nodes.len());
    assert_eq!(0, inventory.len());

    let response = respond(&Message::Verack, &mut known_nodes, &mut inventory, now());
    assert!(response.replies.is_empty());
    assert!(response.gossip.is_none());
}

#[test]
fn addr_teaches_peers() {
    let good = KnownNode::new(Timespec::new(1, 0), 2, 3, Endpoint::from_ipv4(1, 2, 3, 4, 5))
        .unwrap();
    let other = KnownNode::new(Timespec::new(9, 0), 8, 7, Endpoint::from_ipv4(6, 5, 4, 3, 2))
        .unwrap();
    let bad = KnownNode {
        last_seen: Timespec::new(4, 0),
        stream: 5,
        services: 6,
        socket_addr: Endpoint::from_ipv4(1, 2, 3, 4, 0),
    };
    let mut known_nodes = KnownNodes::new(vec![other]);
    let mut inventory = Inventory::new();
    let seen = Timespec::new(1000, 7);
    let message = Message::Addr(AddrMessage::new(vec![good, bad, other]));
    let response = respond(&message, &mut known_nodes, &mut inventory, seen);
    assert!(response.replies.is_empty());
    assert!(response.gossip.is_none());
    let expected = vec![
        other,
        KnownNode { last_seen: seen, ..good },
        KnownNode { last_seen: seen, ..other },
    ];
    assert_eq!(&expected, known_nodes.nodes());

    let mut known_nodes = KnownNodes::new(vec![]);
    learn_nodes(&AddrMessage::new(vec![bad]), &mut known_nodes, seen);
    assert_eq!(0, known_nodes.len());
}

#[test]
fn inv_is_answered_with_a_request_for_what_is_missing() {
    let mut known_nodes = KnownNodes::new(vec![]);
    let mut inventory = Inventory::new();
    inventory.insert(hash(2), other_object(2));
    inventory.insert(hash(4), other_object(4));
    let message = Message::Inv(InvMessage::new(vec![hash(1), hash(2), hash(3), hash(4), hash(1)]));
    let response = respond(&message, &mut known_nodes, &mut inventory, now());
    assert_eq!(1, response.replies.len());
    match &response.replies[0] {
        Message::GetData(request) => {
            assert_eq!(&vec![hash(1), hash(3), hash(1)], request.inventory())
        }
        _ => panic!("not a getdata"),
    }
    assert!(response.gossip.is_none());
    assert_eq!(2, inventory.len());

    let nothing_new = InvMessage::new(vec![hash(4), hash(2)]);
    assert!(request_missing(&nothing_new, &inventory).is_none());
    assert!(request_missing(&InvMessage::new(vec![]), &inventory).is_none());
    let response =
        respond(&Message::Inv(nothing_new), &mut known_nodes, &mut inventory, now());
    assert!(response.replies.is_empty());
}

#[test]
fn getdata_is_answered_with_the_objects_that_are_held() {
    let mut known_nodes = KnownNodes::new(vec![]);
    let mut inventory = Inventory::new();
    inventory.insert(hash(2), other_object(2));
    inventory.insert(hash(4), other_object(4));
    let request = GetdataMessage::new(vec![hash(4), hash(1), hash(2), hash(4)]);
    assert_eq!(
        vec![other_object(4), other_object(2), other_object(4)],
        collect_objects(&request, &inventory)
    );
    let response =
        respond(&Message::GetData(request), &mut known_nodes, &mut inventory, now());
    assert_eq!(3, response.replies.len());
    let nonces: Vec<u64> = response
        .replies
        .iter()
        .map(|reply| match reply {
            Message::Object(object) => object.nonce(),
            _ => panic!("not an object"),
        })
        .collect();
    assert_eq!(vec![4, 2, 4], nonces);
    assert!(response.gossip.is_none());

    let unknown = GetdataMessage::new(vec![hash(9)]);
    assert!(collect_objects(&unknown, &inventory).is_empty());
}

#[test]
fn object_with_proof_is_taken_and_advertised_once() {
    let mut known_nodes = KnownNodes::new(vec![]);
    let mut inventory = Inventory::new();
    let object = known_object();
    let vector = inventory_vector_of(&object.payload());
    let message = Message::Object(object);

    let response = respond(&message, &mut known_nodes, &mut inventory, now());
    assert!(response.replies.is_empty());
    assert_eq!(Some(vector), response.gossip);
    assert_eq!(1, inventory.len());
    assert_eq!(Some(object), inventory.get(&vector));

    let response = respond(&message, &mut known_nodes, &mut inventory, now());
    assert!(response.replies.is_empty());
    assert_eq!(None, response.gossip);
    assert_eq!(1, inventory.len());
}

#[test]
fn object_without_proof_is_dropped() {
    let mut inventory = Inventory::new();
    let mut object = known_object();
    object.nonce += 1;
    assert_eq!(None, accept_object(&object, &mut inventory, now()));
    assert_eq!(0, inventory.len());
    // it has expired
    let late = Timespec::new(EXPIRY + 301, 0);
    assert_eq!(None, accept_object(&known_object(), &mut inventory, late));
    assert_eq!(0, inventory.len());
    // it lives too long
    let early = Timespec::new(EXPIRY - 2_430_001, 0);
    assert_eq!(None, accept_object(&known_object(), &mut inventory, early));
    assert_eq!(0, inventory.len());
    assert!(accept_object(&known_object(), &mut inventory, now()).is_some());
}
