//! A peer-to-peer client for a Bitmessage-style messaging overlay: the wire
//! codec, the proof-of-work stamp on objects, and the decisions of the
//! per-peer connection engine.

use vstd::prelude::*;
use crate::clock::{Timespec, get_time};
use crate::config::{Config, ConfigData};
use crate::inventory::Inventory;
use crate::known_nodes::{KnownNode, KnownNodes};
use crate::net::Endpoint;
use crate::peer::PeerConnector;

pub mod channel;
pub mod checksum;
pub mod clock;
pub mod config;
pub mod connection;
pub mod inventory;
pub mod known_nodes;
pub mod message;
pub mod net;
pub mod peer;
pub mod respond;

verus! {

/// The stream of the peers that the client starts from.
pub const BOOTSTRAP_STREAM: u32 = 1;

/// The services of the peers that the client starts from.
pub const BOOTSTRAP_SERVICES: u64 = 1;

/// Why the client could not go on.
#[derive(Clone, Copy, Debug, PartialEq, Eq)]
pub enum BMError {
    /// What the client keeps on disk cannot be read or written.
    NoDiskAccess,
    /// The network cannot be used.
    Network,
}

/// The client: its options, the peers it knows of and the objects it holds.
pub struct BMClient {
    config: Config,
    known_nodes: KnownNodes,
    inventory: Inventory,
}

/// The peer at `endpoint` as one to start from, seen at the time `now`.
pub open spec fn bootstrap_node(endpoint: Endpoint, now: Timespec) -> KnownNode {
    KnownNode {
        last_seen: now,
        stream: BOOTSTRAP_STREAM,
        services: BOOTSTRAP_SERVICES,
        socket_addr: endpoint,
    }
}

/// The peers to start from: the configured endpoints that can be connected
/// to, each as seen at the time `now`.
pub open spec fn bootstrap_nodes_spec(config: ConfigData, now: Timespec) -> Seq<KnownNode> {
    config.bootstrap_nodes.filter(|endpoint: Endpoint| endpoint.is_valid()).map_values(
        |endpoint: Endpoint| bootstrap_node(endpoint, now),
    )
}

/// The known peers after the start at the time `now`: the peers to start
/// from where none was known, else those that were known.
pub open spec fn bootstrapped(known: Seq<KnownNode>, config: ConfigData, now: Timespec) -> Seq<
    KnownNode,
> {
    if known.len() == 0 {
        bootstrap_nodes_spec(config, now)
    } else {
        known
    }
}

/// The peers to start from, as seen at the time `now`.
pub fn bootstrap_nodes(config: &Config, now: Timespec) -> (nodes: Vec<KnownNode>)
    ensures
        nodes@ == bootstrap_nodes_spec(config@, now),
{
    let endpoints = config.bootstrap_nodes();
    let ghost valid = |endpoint: Endpoint| endpoint.is_valid();
    let ghost stamp = |endpoint: Endpoint| bootstrap_node(endpoint, now);
    let mut nodes: Vec<KnownNode> = Vec::new();
    let mut i: usize = 0;
    proof {
        reveal(Seq::filter);
        assert(endpoints@.take(0).filter(valid) =~= Seq::<Endpoint>::empty());
        assert(nodes@ =~= endpoints@.take(0).filter(valid).map_values(stamp));
    }
    while i < endpoints.len()
        invariant
            i <= endpoints@.len(),
            endpoints@ == config@.bootstrap_nodes,
            valid == |endpoint: Endpoint| endpoint.is_valid(),
            stamp == |endpoint: Endpoint| bootstrap_node(endpoint, now),
            nodes@ == endpoints@.take(i as int).filter(valid).map_values(stamp),
        decreases endpoints@.len() - i,
    {
        let endpoint = endpoints[i];
        proof {
            endpoints@.lemma_take_succ_push(i as int);
            endpoints@.take(i as int).lemma_filter_push(endpoint, valid);
            endpoints@.take(i as int).filter(valid).lemma_push_map_commute(stamp, endpoint);
        }
        if let Ok(node) = KnownNode::new(now, BOOTSTRAP_STREAM, BOOTSTRAP_SERVICES, endpoint) {
            nodes.push(node);
        }
        i = i + 1;
    }
    assert(endpoints@.take(i as int) =~= endpoints@);
    nodes
}

/// Where no peer is known, makes the peers to start from known, as seen at
/// the time `now`.
pub fn bootstrap_known_nodes(known_nodes: &mut KnownNodes, config: &Config, now: Timespec)
    ensures
        final(known_nodes)@ == bootstrapped(old(known_nodes)@, config@, now),
{
    if known_nodes.len() == 0 {
        let nodes = bootstrap_nodes(config, now);
        let mut i: usize = 0;
        assert(known_nodes@ =~= nodes@.take(0));
        while i < nodes.len()
            invariant
                i <= nodes@.len(),
                known_nodes@ == nodes@.take(i as int),
            decreases nodes@.len() - i,
        {
            known_nodes.add(nodes[i]);
            assert(known_nodes@ =~= nodes@.take(i + 1));
            i = i + 1;
        }
        assert(nodes@.take(i as int) =~= nodes@);
    }
}

impl BMClient {
    /// The options of the client.
    pub closed spec fn spec_config(&self) -> Config {
        self.config
    }

    /// The peers that the client knows of.
    pub closed spec fn spec_known_nodes(&self) -> Seq<KnownNode> {
        self.known_nodes@
    }

    /// The inventory of the client.
    pub closed spec fn spec_inventory(&self) -> Inventory {
        self.inventory
    }

    /// The client with the given options, known peers and inventory.
    pub fn new(config: Config, known_nodes: KnownNodes, inventory: Inventory) -> (client: BMClient)
        ensures
            client.spec_config() == config,
            client.spec_known_nodes() == known_nodes@,
            client.spec_inventory() == inventory,
    {
        BMClient { config, known_nodes, inventory }
    }

    /// Starts the client at the time on the system's clock: where no peer
    /// is known, the peers to start from become known. The connector that
    /// is returned says which connections to open from then on.
    pub fn start(&mut self) -> (connector: PeerConnector)
        ensures
            final(self).spec_config() == old(self).spec_config(),
            final(self).spec_inventory() == old(self).spec_inventory(),
            connector.spec_target_fanout() == old(self).spec_config()@.target_fanout,
            exists|now: Timespec|
                now.is_normal() && final(self).spec_known_nodes() == #[trigger] bootstrapped(
                    old(self).spec_known_nodes(),
                    old(self).spec_config()@,
                    now,
                ),
    {
        let now = get_time();
        bootstrap_known_nodes(&mut self.known_nodes, &self.config, now);
        assert(now.is_normal() && self.spec_known_nodes() == bootstrapped(
            old(self).spec_known_nodes(),
            old(self).spec_config()@,
            now,
        ));
        PeerConnector::new(&self.config)
    }

    /// The options of the client.
    pub fn config(&self) -> (config: &Config)
        ensures
            *config == self.spec_config(),
    {
        &self.config
    }

    /// The peers that the client knows of.
    pub fn known_nodes(&self) -> (known_nodes: &KnownNodes)
        ensures
            known_nodes@ == self.spec_known_nodes(),
    {
        &self.known_nodes
    }

    /// The inventory of the client.
    pub fn inventory(&self) -> (inventory: &Inventory)
        ensures
            *inventory == self.spec_inventory(),
    {
        &self.inventory
    }

    /// Takes the client apart into its options, known peers and inventory.
    pub fn into_parts(self) -> (parts: (Config, KnownNodes, Inventory))
        ensures
            parts.0 == self.spec_config(),
            parts.1@ == self.spec_known_nodes(),
            parts.2 == self.spec_inventory(),
    {
        (self.config, self.known_nodes, self.inventory)
    }
}

} // verus!
