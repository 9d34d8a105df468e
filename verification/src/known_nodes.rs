//! The peers that the client knows of.

use vstd::prelude::*;
use rand::{OsRng, Rng};
use crate::clock::{Timespec, get_time};
use crate::message::ParseError;
use crate::net::Endpoint;

verus! {

/// A peer: where it is, what it offers and when it was last seen.
#[derive(Clone, Copy, Debug, PartialEq, Eq)]
pub struct KnownNode {
    pub last_seen: Timespec,
    pub stream: u32,
    pub services: u64,
    pub socket_addr: Endpoint,
}

impl KnownNode {
    /// Whether the peer can be connected to.
    pub open spec fn is_valid(self) -> bool {
        self.socket_addr.is_valid()
    }

    /// The peer at `socket_addr`, or `BadEndpoint` where no connection can be
    /// made to that endpoint.
    pub fn new(last_seen: Timespec, stream: u32, services: u64, socket_addr: Endpoint) -> (r:
        Result<KnownNode, ParseError>)
        ensures
            r == if socket_addr.is_valid() {
                Ok::<KnownNode, ParseError>(
                    KnownNode { last_seen, stream, services, socket_addr },
                )
            } else {
                Err::<KnownNode, ParseError>(ParseError::BadEndpoint)
            },
    {
        if socket_addr.check_valid() {
            Ok(KnownNode { last_seen, stream, services, socket_addr })
        } else {
            Err(ParseError::BadEndpoint)
        }
    }

    /// When the peer was last seen.
    pub fn last_seen(&self) -> (t: Timespec)
        ensures
            t == self.last_seen,
    {
        self.last_seen
    }

    /// The stream that the peer serves.
    pub fn stream(&self) -> (stream: u32)
        ensures
            stream == self.stream,
    {
        self.stream
    }

    /// The services that the peer offers, as a bit field.
    pub fn services(&self) -> (services: u64)
        ensures
            services == self.services,
    {
        self.services
    }

    /// The endpoint of the peer.
    pub fn socket_addr(&self) -> (endpoint: &Endpoint)
        ensures
            *endpoint == self.socket_addr,
    {
        &self.socket_addr
    }
}

/// `rand::Rng::choose` on a `rand::OsRng`: a reference to one element of the
/// slice, which is copied out, or nothing for an empty slice. Nothing is
/// returned either where `OsRng::new` finds no source of randomness. Which
/// element is picked cannot be stated.
#[verifier::external_body]
fn pick_node(nodes: &Vec<KnownNode>) -> (picked: Option<KnownNode>)
    ensures
        picked matches Some(node) ==> nodes@.contains(node),
        nodes@.len() == 0 ==> picked is None,
{
    match OsRng::new() {
        Ok(mut rng) => rng.choose(&nodes[..]).cloned(),
        Err(_) => None,
    }
}

/// The peers that the client knows of, in the order in which it learned of
/// them.
pub struct KnownNodes {
    nodes: Vec<KnownNode>,
}

impl View for KnownNodes {
    type V = Seq<KnownNode>;

    closed spec fn view(&self) -> Seq<KnownNode> {
        self.nodes@
    }
}

impl KnownNodes {
    /// The store with the given peers.
    pub fn new(nodes: Vec<KnownNode>) -> (known_nodes: KnownNodes)
        ensures
            known_nodes@ == nodes@,
    {
        KnownNodes { nodes }
    }

    /// How many peers are known.
    pub fn len(&self) -> (n: usize)
        ensures
            n == self@.len(),
    {
        self.nodes.len()
    }

    /// The known peers.
    pub fn nodes(&self) -> (nodes: &Vec<KnownNode>)
        ensures
            nodes@ == self@,
    {
        &self.nodes
    }

    /// One of the known peers, picked at random; none where no peer is known
    /// or no source of randomness is at hand.
    pub fn get_random(&self) -> (picked: Option<KnownNode>)
        ensures
            picked matches Some(node) ==> self@.contains(node),
            self@.len() == 0 ==> picked is None,
    {
        pick_node(&self.nodes)
    }

    /// Adds a peer behind those already known.
    pub fn add(&mut self, node: KnownNode)
        ensures
            final(self)@ == old(self)@.push(node),
    {
        self.nodes.push(node);
    }

    /// Adds the peer at `address` as seen at the time `now`, or fails with
    /// `BadEndpoint` and leaves the store as it is.
    pub fn add_known_node_at(
        &mut self,
        now: Timespec,
        stream: u32,
        services: u64,
        address: Endpoint,
    ) -> (r: Result<(), ParseError>)
        ensures
            address.is_valid() ==> r is Ok && final(self)@ == old(self)@.push(
                KnownNode { last_seen: now, stream, services, socket_addr: address },
            ),
            !address.is_valid() ==> r == Err::<(), ParseError>(ParseError::BadEndpoint)
                && final(self)@ == old(self)@,
    {
        let known_node = KnownNode::new(now, stream, services, address)?;
        self.nodes.push(known_node);
        Ok(())
    }

    /// Adds the peer at `address` as seen just now, or fails with
    /// `BadEndpoint` and leaves the store as it is.
    pub fn add_known_node(&mut self, stream: u32, services: u64, address: Endpoint) -> (r: Result<
        (),
        ParseError,
    >)
        ensures
            address.is_valid() ==> r is Ok && final(self)@.len() == old(self)@.len() + 1
                && final(self)@.drop_last() == old(self)@ && ({
                let added = final(self)@.last();
                &&& added.stream == stream
                &&& added.services == services
                &&& added.socket_addr == address
                &&& added.last_seen.is_normal()
            }),
            !address.is_valid() ==> r == Err::<(), ParseError>(ParseError::BadEndpoint)
                && final(self)@ == old(self)@,
    {
        let now = get_time();
        let r = self.add_known_node_at(now, stream, services, address);
        proof {
            if address.is_valid() {
                assert(self@.drop_last() =~= old(self)@);
            }
        }
        r
    }
}

} // verus!
