//! The decisions of the connection to one peer: the handshake, staleness,
//! and what is forwarded to the worker that responds.

use vstd::prelude::*;
use crate::clock::{Duration, NSEC_PER_SEC, Timespec};
use crate::config::Config;
use crate::message::{Message, ParseError};
use crate::message::version::{VersionData, VersionMessage};
use crate::net::Endpoint;

verus! {

/// Bytes of payload that may wait between the worker that keeps the state
/// and the worker that responds.
pub const MAX_WRITE_BUFFER: usize = 20_000_000;

/// Seconds after which a connection that is not established is stale.
pub const HANDSHAKE_LIMIT: i64 = 20;

/// Seconds without a frame after which an established connection is stale.
pub const ESTABLISHED_LIMIT: i64 = 600;

/// Milliseconds that the worker that keeps the state sleeps between ticks.
pub const TICK_MILLIS: u32 = 100;

/// The version of the protocol that the client speaks.
pub const PROTOCOL_VERSION: u32 = 3;

/// The services that the client offers.
pub const SERVICES: u64 = 1;

/// The stream that the client is interested in.
pub const STREAM: u64 = 1;

/// The state of a connection. A state with a time was entered at that time.
#[derive(Debug, Clone, Copy, PartialEq)]
pub enum ConnectionState {
    Fresh(Timespec),
    GotVerackAwaitingVersion(Timespec),
    GotVersionAwaitingVerack(Timespec),
    Established(Timespec),
    Stale,
    Error,
}

/// What the worker that keeps the state finds on a tick.
pub enum Event {
    /// No frame has come.
    Idle,
    /// The worker that reads is gone.
    Disconnected,
    /// The worker that reads could not decode a frame.
    Failed(ParseError),
    /// The peer sent a message.
    Frame(Message),
}

/// What a tick decides.
pub struct Step {
    /// The state after the tick.
    pub state: ConnectionState,
    /// The message to hand to the worker that responds, if any.
    pub forward: Option<Message>,
    /// Whether the worker that keeps the state is to stop.
    pub finished: bool,
}

impl ConnectionState {
    /// Whether the connection is over: it is stale or failed.
    pub open spec fn is_finished(self) -> bool {
        self is Stale || self is Error
    }

    /// The time at which the state was entered, where it has one.
    pub open spec fn entered(self) -> Option<Timespec> {
        match self {
            ConnectionState::Fresh(t) => Some(t),
            ConnectionState::GotVerackAwaitingVersion(t) => Some(t),
            ConnectionState::GotVersionAwaitingVerack(t) => Some(t),
            ConnectionState::Established(t) => Some(t),
            ConnectionState::Stale => None,
            ConnectionState::Error => None,
        }
    }

    /// The seconds after which the state is stale: 600 once established, 20
    /// before that.
    pub open spec fn limit(self) -> int {
        if self is Established {
            ESTABLISHED_LIMIT as int
        } else {
            HANDSHAKE_LIMIT as int
        }
    }

    /// Whether the connection is over.
    pub fn finished(&self) -> (finished: bool)
        ensures
            finished == self.is_finished(),
    {
        match self {
            ConnectionState::Stale => true,
            ConnectionState::Error => true,
            _ => false,
        }
    }
}

/// The state that follows `state` on `event` at the time `now`, and the
/// message that is forwarded. A connection that is over stays as it is. A
/// lost reader or a frame that could not be decoded is an error. Before the
/// connection is established, only the frame of the handshake that is still
/// owed is accepted; the peer's `version` is forwarded either way, its
/// `verack` only where it ends the handshake. Once established, every frame
/// is forwarded.
pub open spec fn transition_spec(state: ConnectionState, event: Event, now: Timespec) -> (
    ConnectionState,
    Option<Message>,
) {
    if state.is_finished() {
        (state, None)
    } else {
        match event {
            Event::Idle => (state, None),
            Event::Disconnected => (ConnectionState::Error, None),
            Event::Failed(_) => (ConnectionState::Error, None),
            Event::Frame(m) => match state {
                ConnectionState::Fresh(_) => if m is Version {
                    (ConnectionState::GotVersionAwaitingVerack(now), Some(m))
                } else if m is Verack {
                    (ConnectionState::GotVerackAwaitingVersion(now), None)
                } else {
                    (ConnectionState::Error, None)
                },
                ConnectionState::GotVersionAwaitingVerack(_) => if m is Verack {
                    (ConnectionState::Established(now), Some(m))
                } else {
                    (ConnectionState::Error, None)
                },
                ConnectionState::GotVerackAwaitingVersion(_) => if m is Version {
                    (ConnectionState::Established(now), Some(m))
                } else {
                    (ConnectionState::Error, None)
                },
                ConnectionState::Established(_) => (ConnectionState::Established(now), Some(m)),
                _ => (state, None),
            },
        }
    }
}

/// Whether more than `seconds` have passed from `then` to `now`.
pub open spec fn is_stale(then: Timespec, seconds: int, now: Timespec) -> bool {
    now.nanos() - then.nanos() > seconds * NSEC_PER_SEC
}

/// The state after the test for staleness at the time `now`: stale where
/// the state was entered longer ago than its limit, else as it was.
pub open spec fn staleness_spec(state: ConnectionState, now: Timespec) -> ConnectionState {
    match state.entered() {
        Some(then) => if is_stale(then, state.limit(), now) {
            ConnectionState::Stale
        } else {
            state
        },
        None => state,
    }
}

/// What a tick at the time `now` makes of `state` and `event`: the
/// transition, then the test for staleness.
pub open spec fn tick_spec(state: ConnectionState, event: Event, now: Timespec) -> (
    ConnectionState,
    Option<Message>,
) {
    let (next, forward) = transition_spec(state, event, now);
    (staleness_spec(next, now), forward)
}

/// A connection that is over stays as it is: once stale or failed, no tick
/// changes the state or forwards anything.
pub proof fn lemma_finished_is_final(state: ConnectionState, event: Event, now: Timespec)
    requires
        state.is_finished(),
    ensures
        tick_spec(state, event, now) == (state, None::<Message>),
{
}

/// The state after the ticks on `ticks`, each an event with the time at
/// which it was found, in order.
pub open spec fn state_after(state: ConnectionState, ticks: Seq<(Event, Timespec)>)
    -> ConnectionState
    decreases ticks.len(),
{
    if ticks.len() == 0 {
        state
    } else {
        state_after(tick_spec(state, ticks[0].0, ticks[0].1).0, ticks.drop_first())
    }
}

/// Once a connection is over, no run of ticks brings it into another state.
pub proof fn lemma_finished_stays_finished(state: ConnectionState, ticks: Seq<(Event, Timespec)>)
    requires
        state.is_finished(),
    ensures
        state_after(state, ticks) == state,
    decreases ticks.len(),
{
    if ticks.len() > 0 {
        lemma_finished_is_final(state, ticks[0].0, ticks[0].1);
        lemma_finished_stays_finished(state, ticks.drop_first());
    }
}

/// Only an established connection forwards a frame that is not part of the
/// handshake.
pub proof fn lemma_only_established_forwards(
    state: ConnectionState,
    event: Event,
    now: Timespec,
)
    requires
        tick_spec(state, event, now).1 is Some,
        !(tick_spec(state, event, now).1.unwrap() is Version),
        !(tick_spec(state, event, now).1.unwrap() is Verack),
    ensures
        state is Established,
{
}

/// What is forwarded is the frame that came, and nothing is forwarded
/// without one.
pub proof fn lemma_forward_is_the_frame(state: ConnectionState, event: Event, now: Timespec)
    requires
        tick_spec(state, event, now).1 is Some,
    ensures
        event == Event::Frame(tick_spec(state, event, now).1.unwrap()),
{
}

/// A state that was entered at the time of the tick is not stale.
pub proof fn lemma_fresh_transition_is_not_stale(state: ConnectionState, now: Timespec)
    requires
        state.entered() == Some(now),
    ensures
        staleness_spec(state, now) == state,
{
    assert(state.limit() * NSEC_PER_SEC >= 0) by (nonlinear_arith)
        requires
            state.limit() >= 0,
            NSEC_PER_SEC > 0,
    ;
}

/// The state that follows `state` on `event` at the time `now`, and the
/// message that is forwarded.
pub fn transition(state: ConnectionState, event: Event, now: Timespec) -> (r: (
    ConnectionState,
    Option<Message>,
))
    ensures
        r == transition_spec(state, event, now),
{
    if state.finished() {
        return (state, None);
    }
    match (state, event) {
        (_, Event::Idle) => (state, None),
        (_, Event::Disconnected) => (ConnectionState::Error, None),
        (_, Event::Failed(_)) => (ConnectionState::Error, None),
        (ConnectionState::Fresh(_), Event::Frame(Message::Version(m))) => (
            ConnectionState::GotVersionAwaitingVerack(now),
            Some(Message::Version(m)),
        ),
        (ConnectionState::Fresh(_), Event::Frame(Message::Verack)) => (
            ConnectionState::GotVerackAwaitingVersion(now),
            None,
        ),
        (ConnectionState::Fresh(_), Event::Frame(_)) => (ConnectionState::Error, None),
        (ConnectionState::GotVersionAwaitingVerack(_), Event::Frame(Message::Verack)) => (
            ConnectionState::Established(now),
            Some(Message::Verack),
        ),
        (ConnectionState::GotVersionAwaitingVerack(_), Event::Frame(_)) => (
            ConnectionState::Error,
            None,
        ),
        (ConnectionState::GotVerackAwaitingVersion(_), Event::Frame(Message::Version(m))) => (
            ConnectionState::Established(now),
            Some(Message::Version(m)),
        ),
        (ConnectionState::GotVerackAwaitingVersion(_), Event::Frame(_)) => (
            ConnectionState::Error,
            None,
        ),
        (ConnectionState::Established(_), Event::Frame(m)) => (
            ConnectionState::Established(now),
            Some(m),
        ),
        (_, Event::Frame(_)) => (state, None),
    }
}

/// The state after the test for staleness at the time `now`.
pub fn check_staleness(state: ConnectionState, now: Timespec) -> (r: ConnectionState)
    ensures
        r == staleness_spec(state, now),
{
    let stale = match state {
        ConnectionState::Fresh(time) => time.is_older_than(Duration::seconds(HANDSHAKE_LIMIT), now),
        ConnectionState::GotVersionAwaitingVerack(time) => time.is_older_than(
            Duration::seconds(HANDSHAKE_LIMIT),
            now,
        ),
        ConnectionState::GotVerackAwaitingVersion(time) => time.is_older_than(
            Duration::seconds(HANDSHAKE_LIMIT),
            now,
        ),
        ConnectionState::Established(time) => time.is_older_than(Duration::minutes(10), now),
        _ => false,
    };
    if stale {
        ConnectionState::Stale
    } else {
        state
    }
}

/// One tick of the worker that keeps the state, at the time `now`: the
/// transition on what was found, then the test for staleness. The worker is
/// to stop once the connection is over.
pub fn tick(state: ConnectionState, event: Event, now: Timespec) -> (step: Step)
    ensures
        (step.state, step.forward) == tick_spec(state, event, now),
        step.finished == step.state.is_finished(),
        state.is_finished() ==> step.state == state && step.forward is None,
{
    let (next, forward) = transition(state, event, now);
    let checked = check_staleness(next, now);
    Step { state: checked, forward, finished: checked.finished() }
}

/// What the `version` message of the client says to the peer at
/// `peer_addr` at the time `now`.
pub open spec fn version_data(config: &Config, peer_addr: Endpoint, now: Timespec) -> VersionData {
    VersionData {
        version: PROTOCOL_VERSION,
        services: SERVICES,
        timestamp: now,
        addr_recv: peer_addr,
        addr_from: Endpoint {
            address: Endpoint::ipv4_mapped(127, 0, 0, 1),
            port: config@.listen_port,
        },
        nonce: config@.nonce,
        user_agent: config@.user_agent,
        streams: seq![STREAM],
    }
}

/// The `version` message that the client sends first: it speaks version 3
/// of the protocol, offers the services 1, is at the loopback address with
/// the port it listens on, and is interested in stream 1.
pub fn create_version_message(config: &Config, peer_addr: Endpoint, now: Timespec) -> (message:
    Message)
    ensures
        message@ == crate::message::MessageData::Version(version_data(config, peer_addr, now)),
{
    let port = config.port();
    let our_addr = Endpoint::from_ipv4(127, 0, 0, 1, port);
    let nonce = config.nonce();
    let user_agent = config.user_agent().to_owned();
    let mut streams: Vec<u64> = Vec::new();
    streams.push(STREAM);
    assert(streams@ =~= seq![STREAM]);

    Message::Version(
        VersionMessage::new(
            PROTOCOL_VERSION,
            SERVICES,
            now,
            peer_addr,
            our_addr,
            nonce,
            user_agent,
            streams,
        ),
    )
}

} // verus!
