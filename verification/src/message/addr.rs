//! The `addr` message: peers that the sender knows of.

use vstd::prelude::*;
use crate::clock::Timespec;
use crate::known_nodes::KnownNode;
use crate::message::{MAX_NODES_COUNT, ParseError};
use crate::message::fields::{
    endpoint_bytes, lemma_endpoint_round_trip, lemma_timestamp_round_trip, read_address_and_port,
    read_timestamp, timestamp_bytes, write_address_and_port, write_timestamp,
};
use crate::message::var_int::{
    lemma_var_int_round_trip, parse_var_int, read_var_int_usize, var_int, write_var_int_16,
};
use crate::message::wire::{
    Cursor, be_write_u32, be_write_u64, i64_from_be, lemma_i64_round_trip, lemma_u128_from_prefix,
    lemma_u16_from_prefix, lemma_u32_from_prefix, lemma_u32_round_trip, lemma_u64_from_prefix,
    lemma_u64_round_trip, u128_from_be, u16_from_be, u32_be, u32_from_be, u64_be, u64_from_be,
};
use crate::net::Endpoint;

verus! {

/// Length in bytes of one peer record.
pub const NODE_RECORD_LENGTH: usize = 38;

/// A peer record on the wire: the time it was last seen, its stream, its
/// services and its endpoint.
pub open spec fn node_bytes(node: KnownNode) -> Seq<u8> {
    timestamp_bytes(node.last_seen) + u32_be(node.stream) + u64_be(node.services)
        + endpoint_bytes(node.socket_addr)
}

/// The peer that the 38 bytes of a record stand for.
pub open spec fn node_from_bytes(record: Seq<u8>) -> KnownNode
    recommends
        record.len() >= 38,
{
    KnownNode {
        last_seen: Timespec { sec: i64_from_be(record), nsec: 0 },
        stream: u32_from_be(record.skip(8)),
        services: u64_from_be(record.skip(12)),
        socket_addr: Endpoint {
            address: u128_from_be(record.skip(20)),
            port: u16_from_be(record.skip(36)),
        },
    }
}

/// The records of the peers one after the other.
pub open spec fn nodes_bytes(nodes: Seq<KnownNode>) -> Seq<u8> {
    Seq::new(nodes.len() * 38, |j: int| node_bytes(nodes[j / 38])[j % 38])
}

/// The payload of an `addr` message with the given peers: their number as a
/// variable-length integer, then their records.
pub open spec fn addr_payload(nodes: Seq<KnownNode>) -> Seq<u8> {
    var_int(nodes.len() as u64) + nodes_bytes(nodes)
}

/// Decodes a whole `addr` payload: a count of at most 1000, that many
/// records and nothing after them. Records of peers that cannot be connected
/// to are left out of the result.
pub open spec fn parse_addr(s: Seq<u8>) -> Result<Seq<KnownNode>, ParseError> {
    match parse_var_int(s, MAX_NODES_COUNT as u64) {
        Err(e) => Err(e),
        Ok((count, rest)) => if rest.len() < count * 38 {
            Err(ParseError::ShortRead)
        } else if rest.len() > count * 38 {
            Err(ParseError::TrailingBytes)
        } else {
            Ok(
                Seq::new(
                    count as nat,
                    |i: int| node_from_bytes(rest.subrange(i * 38, i * 38 + 38)),
                ).filter(|node: KnownNode| node.is_valid()),
            )
        },
    }
}

/// Whether an `addr` message with these peers survives the wire unchanged:
/// there are at most 1000 of them, each can be connected to, and each was
/// last seen at a whole second.
pub open spec fn addr_is_exact(nodes: Seq<KnownNode>) -> bool {
    &&& nodes.len() <= MAX_NODES_COUNT
    &&& forall|i: int|
        0 <= i < nodes.len() ==> (#[trigger] nodes[i]).is_valid() && nodes[i].last_seen.nsec == 0
}

/// Decoding the record of a peer gives the peer, where it was last seen at a
/// whole second.
pub proof fn lemma_node_round_trip(node: KnownNode)
    requires
        node.last_seen.nsec == 0,
    ensures
        node_bytes(node).len() == 38,
        node_from_bytes(node_bytes(node)) == node,
{
    let record = node_bytes(node);
    let after_time = u32_be(node.stream) + u64_be(node.services) + endpoint_bytes(
        node.socket_addr,
    );
    let after_stream = u64_be(node.services) + endpoint_bytes(node.socket_addr);
    let after_services = endpoint_bytes(node.socket_addr);
    let empty = Seq::<u8>::empty();
    lemma_timestamp_round_trip(node.last_seen, after_time);
    lemma_u32_round_trip(node.stream, after_stream);
    lemma_u64_round_trip(node.services, after_services);
    lemma_endpoint_round_trip(node.socket_addr, empty);
    assert(record =~= timestamp_bytes(node.last_seen) + after_time);
    assert(record.skip(8) =~= u32_be(node.stream) + after_stream);
    assert(record.skip(12) =~= u64_be(node.services) + after_services);
    assert(record.skip(20) =~= after_services + empty);
    assert(record.skip(36) =~= (after_services + empty).skip(16));
}

/// The record of a peer is 38 bytes long.
pub proof fn lemma_node_bytes_len(node: KnownNode)
    ensures
        node_bytes(node).len() == 38,
{
    let none = Seq::<u8>::empty();
    lemma_i64_round_trip(node.last_seen.sec, none);
    lemma_u32_round_trip(node.stream, none);
    lemma_u64_round_trip(node.services, none);
    lemma_endpoint_round_trip(node.socket_addr, none);
}

/// The peer in the first 38 bytes of `s` is read field by field from their
/// places in `s`.
proof fn lemma_node_from_prefix(s: Seq<u8>)
    requires
        s.len() >= 38,
    ensures
        node_from_bytes(s.take(38)) == (KnownNode {
            last_seen: Timespec { sec: i64_from_be(s), nsec: 0 },
            stream: u32_from_be(s.skip(8)),
            services: u64_from_be(s.skip(12)),
            socket_addr: Endpoint {
                address: u128_from_be(s.skip(20)),
                port: u16_from_be(s.skip(36)),
            },
        }),
{
    let record = s.take(38);
    assert(record.take(8) =~= s.take(8));
    lemma_u64_from_prefix(record, s);
    assert(record.skip(8).take(4) =~= s.skip(8).take(4));
    lemma_u32_from_prefix(record.skip(8), s.skip(8));
    assert(record.skip(12).take(8) =~= s.skip(12).take(8));
    lemma_u64_from_prefix(record.skip(12), s.skip(12));
    assert(record.skip(20).take(16) =~= s.skip(20).take(16));
    lemma_u128_from_prefix(record.skip(20), s.skip(20));
    assert(record.skip(36).take(2) =~= s.skip(36).take(2));
    lemma_u16_from_prefix(record.skip(36), s.skip(36));
}

/// The `i`-th record in the records of `nodes` is that of the `i`-th peer.
proof fn lemma_record_at(nodes: Seq<KnownNode>, i: int)
    requires
        0 <= i < nodes.len(),
    ensures
        nodes_bytes(nodes).subrange(i * 38, i * 38 + 38) == node_bytes(nodes[i]),
{
    let body = nodes_bytes(nodes);
    let record = node_bytes(nodes[i]);
    lemma_node_bytes_len(nodes[i]);
    assert forall|k: int| 0 <= k < 38 implies body[i * 38 + k] == record[k] by {
        assert((i * 38 + k) / 38 == i);
        assert((i * 38 + k) % 38 == k);
    }
    assert(body.subrange(i * 38, i * 38 + 38) =~= record);
}

/// Cutting the records of `nodes` apart and decoding each gives `nodes`,
/// where each was last seen at a whole second.
proof fn lemma_records_round_trip(nodes: Seq<KnownNode>)
    requires
        forall|i: int| 0 <= i < nodes.len() ==> (#[trigger] nodes[i]).last_seen.nsec == 0,
    ensures
        nodes_bytes(nodes).len() == nodes.len() * 38,
        Seq::new(
            nodes.len(),
            |i: int| node_from_bytes(nodes_bytes(nodes).subrange(i * 38, i * 38 + 38)),
        ) == nodes,
{
    let body = nodes_bytes(nodes);
    let decoded = Seq::new(
        nodes.len(),
        |i: int| node_from_bytes(body.subrange(i * 38, i * 38 + 38)),
    );
    assert forall|i: int| 0 <= i < nodes.len() implies #[trigger] decoded[i] == nodes[i] by {
        lemma_node_round_trip(nodes[i]);
        lemma_record_at(nodes, i);
    }
    assert(decoded =~= nodes);
}

/// Decoding the payload of an `addr` message gives its peers, where the
/// message survives the wire unchanged.
pub proof fn lemma_addr_round_trip(nodes: Seq<KnownNode>)
    requires
        addr_is_exact(nodes),
    ensures
        parse_addr(addr_payload(nodes)) == Ok::<Seq<KnownNode>, ParseError>(nodes),
{
    let count = nodes.len() as u64;
    let body = nodes_bytes(nodes);
    let valid = |node: KnownNode| node.is_valid();
    lemma_var_int_round_trip(count, MAX_NODES_COUNT as u64, body);
    lemma_records_round_trip(nodes);
    assert(nodes.filter(valid) == nodes) by {
        assert forall|i: int| 0 <= i < nodes.len() implies valid(#[trigger] nodes[i]) by {}
        lemma_filter_keeps_all(nodes, valid);
    }
}

/// What decoding yields can be connected to: where a payload decodes to
/// peers, there are at most 1000 of them and each can be connected to.
pub proof fn lemma_decoded_addr_is_valid(s: Seq<u8>)
    requires
        parse_addr(s) is Ok,
    ensures
        parse_addr(s).unwrap().len() <= MAX_NODES_COUNT,
        forall|i: int|
            0 <= i < parse_addr(s).unwrap().len() ==> (#[trigger] parse_addr(
                s,
            ).unwrap()[i]).is_valid(),
{
    let (count, rest) = parse_var_int(s, MAX_NODES_COUNT as u64).unwrap();
    let records = Seq::new(
        count as nat,
        |i: int| node_from_bytes(rest.subrange(i * 38, i * 38 + 38)),
    );
    let valid = |node: KnownNode| node.is_valid();
    records.lemma_filter_len(valid);
    assert forall|i: int| 0 <= i < records.filter(valid).len() implies (#[trigger] records.filter(
        valid,
    )[i]).is_valid() by {
        records.lemma_filter_pred(valid, i);
    }
}

/// A filter that every element passes changes nothing.
proof fn lemma_filter_keeps_all<A>(s: Seq<A>, pred: spec_fn(A) -> bool)
    requires
        forall|i: int| 0 <= i < s.len() ==> pred(#[trigger] s[i]),
    ensures
        s.filter(pred) == s,
    decreases s.len(),
{
    reveal(Seq::filter);
    if s.len() > 0 {
        lemma_filter_keeps_all(s.drop_last(), pred);
        assert(s.drop_last().push(s.last()) =~= s);
    }
}

/// The peers that a node announces.
pub struct AddrMessage {
    addr_list: Vec<KnownNode>,
}

impl View for AddrMessage {
    type V = Seq<KnownNode>;

    /// The announced peers, in order.
    closed spec fn view(&self) -> Seq<KnownNode> {
        self.addr_list@
    }
}

impl AddrMessage {
    #[verifier::type_invariant]
    spec fn within_limit(&self) -> bool {
        self.addr_list@.len() <= MAX_NODES_COUNT
    }

    /// An announcement of the given peers, 1000 at most.
    pub fn new(addr_list: Vec<KnownNode>) -> (message: AddrMessage)
        requires
            addr_list@.len() <= MAX_NODES_COUNT,
        ensures
            message@ == addr_list@,
    {
        AddrMessage { addr_list }
    }

    /// Decodes the payload of an `addr` frame.
    pub fn read(payload: Vec<u8>) -> (r: Result<Box<AddrMessage>, ParseError>)
        ensures
            match parse_addr(payload@) {
                Ok(nodes) => r matches Ok(message) && message@ == nodes,
                Err(e) => r == Err::<Box<AddrMessage>, ParseError>(e),
            },
    {
        let mut cursor = Cursor::new(payload.as_slice());
        let count = read_var_int_usize(&mut cursor, MAX_NODES_COUNT)?;
        let ghost rest = cursor.remaining();
        let ghost records = Seq::new(
            count as nat,
            |i: int| node_from_bytes(rest.subrange(i * 38, i * 38 + 38)),
        );
        let ghost valid = |node: KnownNode| node.is_valid();
        if cursor.remaining_len() / NODE_RECORD_LENGTH < count {
            return Err(ParseError::ShortRead);
        }
        let mut known_nodes: Vec<KnownNode> = Vec::with_capacity(count);
        let mut i: usize = 0;
        proof {
            reveal(Seq::filter);
            assert(records.take(0).filter(valid) =~= Seq::<KnownNode>::empty());
        }
        while i < count
            invariant
                i <= count <= MAX_NODES_COUNT,
                rest.len() >= count * 38,
                cursor.remaining() == rest.skip(i * 38),
                records == Seq::new(
                    count as nat,
                    |i: int| node_from_bytes(rest.subrange(i * 38, i * 38 + 38)),
                ),
                valid == |node: KnownNode| node.is_valid(),
                known_nodes@ == records.take(i as int).filter(valid),
                known_nodes@.len() <= i,
            decreases count - i,
        {
            let ghost at_record = cursor.remaining();
            let timestamp = read_timestamp(&mut cursor)?;
            let stream = cursor.read_u32()?;
            let services = cursor.read_u64()?;
            let addr = read_address_and_port(&mut cursor)?;
            proof {
                assert(at_record.skip(8).skip(4) =~= at_record.skip(12));
                assert(at_record.skip(12).skip(8) =~= at_record.skip(20));
                assert(at_record.skip(20).skip(16) =~= at_record.skip(36));
                assert(at_record.skip(20).skip(18) =~= rest.skip((i + 1) * 38));
                assert(at_record.take(38) =~= rest.subrange(i * 38, i * 38 + 38));
                lemma_node_from_prefix(at_record);
                let node = KnownNode { last_seen: timestamp, stream, services, socket_addr: addr };
                assert(node == records[i as int]);
                records.lemma_take_succ_push(i as int);
                records.take(i as int).lemma_filter_push(node, valid);
            }
            if let Ok(known_node) = KnownNode::new(timestamp, stream, services, addr) {
                known_nodes.push(known_node);
            }
            i = i + 1;
        }
        cursor.check_no_more_data()?;
        assert(records.take(count as int) =~= records);
        Ok(Box::new(AddrMessage::new(known_nodes)))
    }

    /// The announced peers.
    pub fn addr_list(&self) -> (addr_list: &Vec<KnownNode>)
        ensures
            addr_list@ == self@,
            addr_list@.len() <= MAX_NODES_COUNT,
    {
        proof {
            use_type_invariant(self);
        }
        &self.addr_list
    }

    /// The command name of the frame, `addr`.
    pub fn command(&self) -> (name: String)
        ensures
            name@ == "addr"@,
    {
        "addr".to_owned()
    }

    /// The payload of the frame.
    pub fn payload(&self) -> (payload: Vec<u8>)
        ensures
            payload@ == addr_payload(self@),
    {
        proof {
            use_type_invariant(self);
        }
        let mut payload = Vec::new();
        write_var_int_16(&mut payload, self.addr_list.len() as u16);
        let ghost head = payload@;
        let ghost nodes = self.addr_list@;
        let mut i: usize = 0;
        while i < self.addr_list.len()
            invariant
                i <= self.addr_list.len(),
                nodes == self.addr_list@,
                payload@ == head + nodes_bytes(nodes.take(i as int)),
            decreases self.addr_list.len() - i,
        {
            let addr = &self.addr_list[i];
            let ghost before = payload@;
            write_timestamp(&mut payload, addr.last_seen());
            be_write_u32(&mut payload, addr.stream());
            be_write_u64(&mut payload, addr.services());
            write_address_and_port(&mut payload, addr.socket_addr());
            proof {
                let node = nodes[i as int];
                let shorter = nodes_bytes(nodes.take(i as int));
                let longer = nodes_bytes(nodes.take(i + 1));
                assert(payload@ =~= before + node_bytes(node));
                lemma_node_bytes_len(node);
                assert forall|j: int| 0 <= j < longer.len() implies longer[j] == (shorter
                    + node_bytes(node))[j] by {
                    if j < i * 38 {
                        assert(j / 38 < i);
                    } else {
                        assert(j / 38 == i);
                        assert(j % 38 == j - i * 38);
                    }
                }
                assert(longer =~= shorter + node_bytes(node));
                assert(payload@ =~= head + longer);
            }
            i = i + 1;
        }
        assert(nodes.take(i as int) =~= nodes);
        payload
    }
}

} // verus!
