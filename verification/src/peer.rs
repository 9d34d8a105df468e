//! The decisions of the connector that keeps the wanted number of
//! connections open.

use vstd::prelude::*;
use crate::config::Config;
use crate::connection::ConnectionState;
use crate::known_nodes::{KnownNode, KnownNodes};

verus! {

/// What the connector is to do about its connections.
pub struct Plan {
    /// The positions of the connections to close and drop, ascending.
    pub evict: Vec<usize>,
    /// How many connections to open.
    pub open: usize,
}

/// How many of the connections are not over.
pub open spec fn live_count(states: Seq<ConnectionState>) -> nat {
    states.filter(|state: ConnectionState| !state.is_finished()).len()
}

/// Whether `evict` names the connections that are over, each once and in
/// ascending order.
pub open spec fn names_finished(evict: Seq<usize>, states: Seq<ConnectionState>) -> bool {
    &&& forall|k: int|
        0 <= k < evict.len() ==> (#[trigger] evict[k]) < states.len()
            && states[evict[k] as int].is_finished()
    &&& forall|j: int, k: int| 0 <= j < k < evict.len() ==> evict[j] < evict[k]
    &&& forall|i: int|
        0 <= i < states.len() && (#[trigger] states[i]).is_finished() ==> evict.contains(
            i as usize,
        )
}

/// How many connections are to be opened to reach `target`, given how many
/// are not over.
pub open spec fn wanted(target: usize, live: nat) -> nat {
    if live >= target {
        0
    } else {
        (target - live) as nat
    }
}

/// The connector: it keeps `target_fanout` connections open.
pub struct PeerConnector {
    target_fanout: usize,
}

impl PeerConnector {
    /// How many connections the connector keeps open.
    pub closed spec fn spec_target_fanout(&self) -> usize {
        self.target_fanout
    }

    /// The connector for the given options.
    pub fn new(config: &Config) -> (connector: PeerConnector)
        ensures
            connector.spec_target_fanout() == config@.target_fanout,
    {
        PeerConnector { target_fanout: config.target_fanout() }
    }

    /// How many connections the connector keeps open.
    #[verifier::when_used_as_spec(spec_target_fanout)]
    pub fn target_fanout(&self) -> (target: usize)
        ensures
            target == self.spec_target_fanout(),
    {
        self.target_fanout
    }

    /// Looks at the states of the connections: those that are over are to be
    /// evicted, and as many are to be opened as are then missing.
    pub fn plan(&self, states: &Vec<ConnectionState>) -> (plan: Plan)
        ensures
            names_finished(plan.evict@, states@),
            plan.open == wanted(self.spec_target_fanout(), live_count(states@)),
    {
        let ghost alive = |state: ConnectionState| !state.is_finished();
        let mut evict: Vec<usize> = Vec::new();
        let mut live: usize = 0;
        let mut i: usize = 0;
        proof {
            reveal(Seq::filter);
            assert(states@.take(0).filter(alive) =~= Seq::<ConnectionState>::empty());
        }
        while i < states.len()
            invariant
                i <= states@.len(),
                alive == |state: ConnectionState| !state.is_finished(),
                live == states@.take(i as int).filter(alive).len(),
                live <= i,
                forall|k: int|
                    0 <= k < evict@.len() ==> (#[trigger] evict@[k]) < i
                        && states@[evict@[k] as int].is_finished(),
                forall|j: int, k: int| 0 <= j < k < evict@.len() ==> evict@[j] < evict@[k],
                forall|n: int|
                    0 <= n < i && (#[trigger] states@[n]).is_finished() ==> evict@.contains(
                        n as usize,
                    ),
            decreases states@.len() - i,
        {
            proof {
                states@.lemma_take_succ_push(i as int);
                states@.take(i as int).lemma_filter_push(states@[i as int], alive);
            }
            let ghost before = evict@;
            if states[i].finished() {
                evict.push(i);
                proof {
                    assert forall|n: int|
                        0 <= n < i + 1 && (#[trigger] states@[n]).is_finished()
                    implies evict@.contains(n as usize) by {
                        if n < i {
                            let k = choose|k: int| 0 <= k < before.len() && before[k] == n as usize;
                            assert(evict@[k] == n as usize);
                        } else {
                            assert(evict@[before.len() as int] == i);
                        }
                    }
                }
            } else {
                live = live + 1;
            }
            i = i + 1;
        }
        assert(states@.take(i as int) =~= states@);
        let open = if live >= self.target_fanout {
            0
        } else {
            self.target_fanout - live
        };
        Plan { evict, open }
    }

    /// A peer to connect to, picked at random from those that are known;
    /// none where none is known or no source of randomness is at hand.
    pub fn pick_candidate(&self, known_nodes: &KnownNodes) -> (candidate: Option<KnownNode>)
        ensures
            candidate matches Some(node) ==> known_nodes@.contains(node),
            known_nodes@.len() == 0 ==> candidate is None,
    {
        known_nodes.get_random()
    }
}

} // verus!
