//! What the client answers to the messages of an established peer, and what
//! it learns from them.

use vstd::prelude::*;
use crate::clock::Timespec;
use crate::inventory::{
    Inventory, holds, inventory_hash, inventory_vector_of, lemma_lookup_holds, lookup,
};
use crate::known_nodes::{KnownNode, KnownNodes};
use crate::message::{InventoryVector, MAX_GETDATA_COUNT, Message, MessageData};
use crate::message::getdata::GetdataMessage;
use crate::message::inv::InvMessage;
use crate::message::addr::AddrMessage;
use crate::message::inventory_vector::hashes_of;
use crate::message::object::{
    CUTOFF_WINDOW, EXTRA_BYTES, NONCE_TRIALS_PER_BYTE, ObjectMessage, object_body_bytes,
    object_payload, verify_parameters,
};
use crate::message::{MAX_TTL, OBJECT_EXPIRY_CUTOFF};
use crate::message::pow::{ProofOfWorkConfig, verify_proof, verify_proof_spec};
use crate::message::wire::lemma_u64_round_trip;

verus! {

/// The peer `node` as seen at the time `now`.
pub open spec fn seen_at(node: KnownNode, now: Timespec) -> KnownNode {
    KnownNode {
        last_seen: now,
        stream: node.stream,
        services: node.services,
        socket_addr: node.socket_addr,
    }
}

/// What the client learns from the peers of an `addr` message at the time
/// `now`: those that can be connected to, each as seen now.
pub open spec fn learned(nodes: Seq<KnownNode>, now: Timespec) -> Seq<KnownNode> {
    nodes.filter(|node: KnownNode| node.is_valid()).map_values(
        |node: KnownNode| seen_at(node, now),
    )
}

/// The hashes of an `inv` message under which the inventory holds nothing,
/// in the order of the message.
pub open spec fn missing(hashes: Seq<Seq<u8>>, held: Seq<(Seq<u8>, ObjectMessage)>) -> Seq<
    Seq<u8>,
> {
    hashes.filter(|hash: Seq<u8>| !holds(held, hash))
}

/// The objects that the inventory holds under the hashes of a `getdata`
/// message, in the order of the message.
pub open spec fn found(hashes: Seq<Seq<u8>>, held: Seq<(Seq<u8>, ObjectMessage)>) -> Seq<
    ObjectMessage,
> {
    hashes.filter(|hash: Seq<u8>| holds(held, hash)).map_values(
        |hash: Seq<u8>| lookup(held, hash).unwrap(),
    )
}

/// Whether the proof of work of `object` is accepted at the time `now`.
pub open spec fn is_accepted(object: ObjectMessage, now: Timespec) -> bool {
    verify_proof_spec(
        object.nonce,
        object_body_bytes(object),
        object.expiry,
        verify_parameters(now),
    ) is Ok
}

/// Whether `object` is new to the inventory at the time `now`: its proof of
/// work is accepted and nothing is held under its hash.
pub open spec fn is_news(object: ObjectMessage, held: Seq<(Seq<u8>, ObjectMessage)>, now: Timespec)
    -> bool {
    is_accepted(object, now) && !holds(held, inventory_hash(object_payload(object)))
}

/// Adds to the store the peers of an `addr` message that can be connected
/// to, each as seen at the time `now`.
pub fn learn_nodes(message: &AddrMessage, known_nodes: &mut KnownNodes, now: Timespec)
    ensures
        final(known_nodes)@ == old(known_nodes)@ + learned(message@, now),
{
    let nodes = message.addr_list();
    let ghost valid = |node: KnownNode| node.is_valid();
    let ghost stamp = |node: KnownNode| seen_at(node, now);
    let mut i: usize = 0;
    proof {
        reveal(Seq::filter);
        assert(nodes@.take(0).filter(valid) =~= Seq::<KnownNode>::empty());
        assert(known_nodes@ =~= old(known_nodes)@ + learned(nodes@.take(0), now));
    }
    while i < nodes.len()
        invariant
            i <= nodes@.len(),
            nodes@ == message@,
            valid == |node: KnownNode| node.is_valid(),
            stamp == |node: KnownNode| seen_at(node, now),
            known_nodes@ == old(known_nodes)@ + nodes@.take(i as int).filter(valid).map_values(
                stamp,
            ),
        decreases nodes@.len() - i,
    {
        let node = nodes[i];
        let _ = known_nodes.add_known_node_at(
            now,
            node.stream(),
            node.services(),
            *node.socket_addr(),
        );
        proof {
            let shorter = nodes@.take(i as int);
            nodes@.lemma_take_succ_push(i as int);
            shorter.lemma_filter_push(node, valid);
            if valid(node) {
                shorter.filter(valid).lemma_push_map_commute(stamp, node);
                assert(known_nodes@ =~= old(known_nodes)@ + nodes@.take(i + 1).filter(
                    valid,
                ).map_values(stamp));
            }
        }
        i = i + 1;
    }
    assert(nodes@.take(i as int) =~= nodes@);
}

/// The request for the objects of an `inv` message that the inventory does
/// not hold, or nothing where it holds them all.
pub fn request_missing(message: &InvMessage, inventory: &Inventory) -> (request: Option<
    GetdataMessage,
>)
    ensures
        missing(message@, inventory@).len() == 0 ==> request is None,
        missing(message@, inventory@).len() > 0 ==> (request matches Some(r) && r@ == missing(
            message@,
            inventory@,
        )),
{
    let list = message.inventory();
    let ghost hashes = hashes_of(list@);
    let ghost absent = |hash: Seq<u8>| !holds(inventory@, hash);
    let mut wanted: Vec<InventoryVector> = Vec::new();
    let mut i: usize = 0;
    proof {
        reveal(Seq::filter);
        assert(hashes.take(0).filter(absent) =~= Seq::<Seq<u8>>::empty());
        assert(hashes_of(wanted@) =~= Seq::<Seq<u8>>::empty());
    }
    while i < list.len()
        invariant
            i <= list@.len(),
            list@.len() <= MAX_GETDATA_COUNT,
            hashes == hashes_of(list@),
            absent == |hash: Seq<u8>| !holds(inventory@, hash),
            hashes_of(wanted@) == hashes.take(i as int).filter(absent),
            wanted@.len() <= i,
        decreases list@.len() - i,
    {
        let hash = list[i];
        let ghost before = wanted@;
        proof {
            hashes.lemma_take_succ_push(i as int);
            hashes.take(i as int).lemma_filter_push(hash@, absent);
        }
        if !inventory.contains(&hash) {
            wanted.push(hash);
            assert(hashes_of(wanted@) =~= hashes_of(before).push(hash@));
        }
        i = i + 1;
    }
    assert(hashes.take(i as int) =~= hashes);
    if wanted.len() == 0 {
        None
    } else {
        Some(GetdataMessage::new(wanted))
    }
}

/// The objects that the inventory holds under the hashes of a `getdata`
/// message, in the order of the message. Hashes under which nothing is held
/// are passed over.
pub fn collect_objects(message: &GetdataMessage, inventory: &Inventory) -> (objects: Vec<
    ObjectMessage,
>)
    ensures
        objects@ == found(message@, inventory@),
{
    let list = message.inventory();
    let ghost hashes = hashes_of(list@);
    let ghost present = |hash: Seq<u8>| holds(inventory@, hash);
    let ghost fetch = |hash: Seq<u8>| lookup(inventory@, hash).unwrap();
    let mut objects: Vec<ObjectMessage> = Vec::new();
    let mut i: usize = 0;
    proof {
        reveal(Seq::filter);
        assert(hashes.take(0).filter(present) =~= Seq::<Seq<u8>>::empty());
        assert(objects@ =~= hashes.take(0).filter(present).map_values(fetch));
    }
    while i < list.len()
        invariant
            i <= list@.len(),
            hashes == hashes_of(list@),
            present == |hash: Seq<u8>| holds(inventory@, hash),
            fetch == |hash: Seq<u8>| lookup(inventory@, hash).unwrap(),
            objects@ == hashes.take(i as int).filter(present).map_values(fetch),
        decreases list@.len() - i,
    {
        let hash = list[i];
        proof {
            hashes.lemma_take_succ_push(i as int);
            hashes.take(i as int).lemma_filter_push(hash@, present);
            hashes.take(i as int).filter(present).lemma_push_map_commute(fetch, hash@);
            lemma_lookup_holds(inventory@, hash@);
        }
        if let Some(object) = inventory.get(&hash) {
            objects.push(object);
        }
        i = i + 1;
    }
    assert(hashes.take(i as int) =~= hashes);
    objects
}

/// Takes `object` into the inventory where it is new to it at the time
/// `now`, and gives the hash under which it is then to be advertised. An
/// object whose proof of work is not accepted is dropped, and so is one
/// that is held already.
pub fn accept_object(object: &ObjectMessage, inventory: &mut Inventory, now: Timespec) -> (gossip:
    Option<InventoryVector>)
    ensures
        is_news(*object, old(inventory)@, now) ==> (gossip matches Some(hash)
            && hash@ == inventory_hash(object_payload(*object))
            && final(inventory)@ == old(inventory)@.push((hash@, *object))),
        !is_news(*object, old(inventory)@, now) ==> gossip is None
            && final(inventory)@ == old(inventory)@,
{
    let payload = object.payload();
    proof {
        lemma_u64_round_trip(object.nonce, object_body_bytes(*object));
    }
    let stamped = vstd::slice::slice_subrange(payload.as_slice(), 8, payload.len());
    assert(stamped@ =~= object_body_bytes(*object));
    let verify_config = ProofOfWorkConfig::new(
        NONCE_TRIALS_PER_BYTE,
        EXTRA_BYTES,
        OBJECT_EXPIRY_CUTOFF,
        MAX_TTL,
        CUTOFF_WINDOW,
        now,
    );
    if verify_proof(object.nonce(), stamped, object.expiry(), &verify_config).is_err() {
        return None;
    }
    let hash = inventory_vector_of(payload.as_slice());
    if inventory.insert(hash, *object) {
        Some(hash)
    } else {
        None
    }
}

/// What the client does about one message of an established peer.
pub struct Response {
    /// The messages to send to the peer, in order.
    pub replies: Vec<Message>,
    /// The hash of an object to advertise to the other peers, if one came.
    pub gossip: Option<InventoryVector>,
}

/// What each of the messages says.
pub open spec fn views(messages: Seq<Message>) -> Seq<MessageData> {
    messages.map_values(|message: Message| message@)
}

/// The replies to a message, given what the inventory holds: a `verack` to
/// a `version`; to an `inv`, a `getdata` for the hashes under which nothing
/// is held, if there are any; to a `getdata`, the objects that are held
/// under its hashes; and nothing to the others.
pub open spec fn replies_to(message: MessageData, held: Seq<(Seq<u8>, ObjectMessage)>) -> Seq<
    MessageData,
> {
    match message {
        MessageData::Version(_) => seq![MessageData::Verack],
        MessageData::Verack => Seq::empty(),
        MessageData::Addr(_) => Seq::empty(),
        MessageData::Inv(hashes) => if missing(hashes, held).len() == 0 {
            Seq::empty()
        } else {
            seq![MessageData::GetData(missing(hashes, held))]
        },
        MessageData::GetData(hashes) => found(hashes, held).map_values(
            |object: ObjectMessage| MessageData::Object(object),
        ),
        MessageData::Object(_) => Seq::empty(),
    }
}

/// The known peers after a message that came at the time `now`: an `addr`
/// adds its peers, the others change nothing.
pub open spec fn nodes_after(message: MessageData, known: Seq<KnownNode>, now: Timespec) -> Seq<
    KnownNode,
> {
    match message {
        MessageData::Addr(nodes) => known + learned(nodes, now),
        _ => known,
    }
}

/// The inventory after a message that came at the time `now`: an object
/// that is new to it is added under its hash, the others change nothing.
pub open spec fn inventory_after(
    message: MessageData,
    held: Seq<(Seq<u8>, ObjectMessage)>,
    now: Timespec,
) -> Seq<(Seq<u8>, ObjectMessage)> {
    match message {
        MessageData::Object(object) => if is_news(object, held, now) {
            held.push((inventory_hash(object_payload(object)), object))
        } else {
            held
        },
        _ => held,
    }
}

/// The hash to advertise after a message that came at the time `now`: that
/// of an object that is new to the inventory.
pub open spec fn gossip_after(
    message: MessageData,
    held: Seq<(Seq<u8>, ObjectMessage)>,
    now: Timespec,
) -> Option<Seq<u8>> {
    match message {
        MessageData::Object(object) => if is_news(object, held, now) {
            Some(inventory_hash(object_payload(object)))
        } else {
            None
        },
        _ => None,
    }
}

/// Answers one message that the peer sent and that came at the time `now`:
/// gives the replies, takes what the message teaches into the store of
/// known peers and into the inventory, and names what is to be advertised.
pub fn respond(
    message: &Message,
    known_nodes: &mut KnownNodes,
    inventory: &mut Inventory,
    now: Timespec,
) -> (response: Response)
    ensures
        views(response.replies@) == replies_to(message@, old(inventory)@),
        final(known_nodes)@ == nodes_after(message@, old(known_nodes)@, now),
        final(inventory)@ == inventory_after(message@, old(inventory)@, now),
        match gossip_after(message@, old(inventory)@, now) {
            Some(hash) => response.gossip matches Some(vector) && vector@ == hash,
            None => response.gossip is None,
        },
{
    let mut replies: Vec<Message> = Vec::new();
    let mut gossip: Option<InventoryVector> = None;
    match message {
        Message::Version(_) => {
            replies.push(Message::Verack);
            assert(views(replies@) =~= seq![MessageData::Verack]);
        },
        Message::Verack => {
            assert(views(replies@) =~= Seq::<MessageData>::empty());
        },
        Message::Addr(addr) => {
            learn_nodes(addr, known_nodes, now);
            assert(views(replies@) =~= Seq::<MessageData>::empty());
        },
        Message::Inv(inv) => {
            match request_missing(inv, inventory) {
                Some(request) => {
                    replies.push(Message::GetData(request));
                    assert(views(replies@) =~= seq![
                        MessageData::GetData(missing(inv@, inventory@)),
                    ]);
                },
                None => {
                    assert(views(replies@) =~= Seq::<MessageData>::empty());
                },
            }
        },
        Message::GetData(getdata) => {
            let objects = collect_objects(getdata, inventory);
            let ghost wrap = |object: ObjectMessage| MessageData::Object(object);
            let mut i: usize = 0;
            assert(views(replies@) =~= objects@.take(0).map_values(wrap));
            while i < objects.len()
                invariant
                    i <= objects@.len(),
                    replies@.len() == i,
                    wrap == |object: ObjectMessage| MessageData::Object(object),
                    views(replies@) == objects@.take(i as int).map_values(wrap),
                decreases objects@.len() - i,
            {
                let ghost before = replies@;
                replies.push(Message::Object(objects[i]));
                proof {
                    let grown = views(replies@);
                    let wanted = objects@.take(i + 1).map_values(wrap);
                    assert(grown.len() == wanted.len());
                    assert forall|k: int| 0 <= k < grown.len() implies grown[k] == wanted[k] by {
                        if k < i {
                            assert(grown[k] == views(before)[k]);
                            assert(objects@.take(i as int).map_values(wrap)[k] == wanted[k]);
                        } else {
                            assert(replies@[k] == Message::Object(objects@[i as int]));
                        }
                    }
                    assert(grown =~= wanted);
                }
                i = i + 1;
            }
            assert(objects@.take(i as int) =~= objects@);
        },
        Message::Object(object) => {
            gossip = accept_object(object, inventory, now);
            assert(views(replies@) =~= Seq::<MessageData>::empty());
        },
    }
    Response { replies, gossip }
}

} // verus!
