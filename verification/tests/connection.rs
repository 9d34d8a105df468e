use bm_client::clock::{Duration, Timespec};
use bm_client::config::Config;
use bm_client::connection::{
    check_staleness, create_version_message, tick, transition, ConnectionState, Event,
};
use bm_client::known_nodes::KnownNodes;
use bm_client::inventory::Inventory;
use bm_client::message::inv::InvMessage;
use bm_client::message::version::VersionMessage;
use bm_client::message::{Message, ParseError};
use bm_client::net::Endpoint;
use bm_client::respond::respond;

fn at(sec: i64) -> Timespec {
    Timespec::new(sec, 0)
}

fn config() -> Config {
    Config::new(8444, 0x0102_0304_0506_0708, "/bm:1/".to_string(), 8, vec![]).unwrap()
}

fn version() -> Message {
    create_version_message(&config(), Endpoint::from_ipv4(1, 2, 3, 4, 8444), at(7))
}

fn inv() -> Message {
    Message::Inv(InvMessage::new(vec![]))
}

fn replies_to(message: &Message) -> Vec<Message> {
    let mut known_nodes = KnownNodes::new(vec![]);
    let mut inventory = Inventory::new();
    respond(message, &mut known_nodes, &mut inventory, at(0)).replies
}

#[test]
fn handshake_verack_then_version() {
    // the worker that responds sends its version before anything comes
    let first = version();
    assert!(matches!(first, Message::Version(_)));

    let state = ConnectionState::Fresh(at(100));
    let step = tick(state, Event::Frame(Message::Verack), at(101));
    assert_eq!(ConnectionState::GotVerackAwaitingVersion(at(101)), step.state);
    assert!(step.forward.is_none());
    assert!(!step.finished);

    let step = tick(step.state, Event::Frame(version()), at(102));
    assert_eq!(ConnectionState::Established(at(102)), step.state);
    assert!(!step.finished);
    let forwarded = step.forward.unwrap();
    assert!(matches!(forwarded, Message::Version(_)));

    // and a verack on the peer's version
    let replies = replies_to(&forwarded);
    assert_eq!(1, replies.len());
    assert!(matches!(replies[0], Message::Verack));
}

#[test]
fn handshake_version_then_verack() {
    let state = ConnectionState::Fresh(at(100));
    let step = tick(state, Event::Frame(version()), at(101));
    assert_eq!(ConnectionState::GotVersionAwaitingVerack(at(101)), step.state);
    let forwarded = step.forward.unwrap();
    assert!(matches!(forwarded, Message::Version(_)));
    let replies = replies_to(&forwarded);
    assert_eq!(1, replies.len());
    assert!(matches!(replies[0], Message::Verack));

    let step = tick(step.state, Event::Frame(Message::Verack), at(102));
    assert_eq!(ConnectionState::Established(at(102)), step.state);
    assert!(matches!(step.forward, Some(Message::Verack)));
    assert!(replies_to(&Message::Verack).is_empty());
}

#[test]
fn unexpected_first_frame_is_an_error() {
    let step = tick(ConnectionState::Fresh(at(100)), Event::Frame(inv()), at(101));
    assert_eq!(ConnectionState::Error, step.state);
    assert!(step.forward.is_none());
    assert!(step.finished);
}

#[test]
fn silent_peer_goes_stale_after_twenty_seconds() {
    let mut state = ConnectionState::Fresh(at(100));
    // ticks every 100 ms for 20 seconds
    for tenth in 0..=200 {
        let now = Timespec::new(100 + tenth / 10, (tenth % 10) as i32 * 100_000_000);
        let step = tick(state, Event::Idle, now);
        assert_eq!(ConnectionState::Fresh(at(100)), step.state);
        assert!(!step.finished);
        state = step.state;
    }
    let step = tick(state, Event::Idle, Timespec::new(120, 100_000_000));
    assert_eq!(ConnectionState::Stale, step.state);
    assert!(step.forward.is_none());
    assert!(step.finished);
}

#[test]
fn staleness_limits() {
    let then = at(1000);
    for state in [
        ConnectionState::Fresh(then),
        ConnectionState::GotVerackAwaitingVersion(then),
        ConnectionState::GotVersionAwaitingVerack(then),
    ] {
        assert_eq!(state, check_staleness(state, at(1000)));
        assert_eq!(state, check_staleness(state, at(1020)));
        assert_eq!(ConnectionState::Stale, check_staleness(state, Timespec::new(1020, 1)));
        assert_eq!(ConnectionState::Stale, check_staleness(state, at(1021)));
        assert_eq!(state, check_staleness(state, at(0)));
    }
    let established = ConnectionState::Established(then);
    assert_eq!(established, check_staleness(established, at(1021)));
    assert_eq!(established, check_staleness(established, at(1600)));
    assert_eq!(ConnectionState::Stale, check_staleness(established, Timespec::new(1600, 1)));
    assert_eq!(ConnectionState::Stale, check_staleness(ConnectionState::Stale, at(0)));
    assert_eq!(ConnectionState::Error, check_staleness(ConnectionState::Error, at(5000)));
}

#[test]
fn established_connection_goes_stale_after_ten_minutes_without_a_frame() {
    let state = ConnectionState::Established(at(0));
    let step = tick(state, Event::Idle, at(600));
    assert_eq!(state, step.state);
    let step = tick(state, Event::Frame(inv()), at(600));
    assert_eq!(ConnectionState::Established(at(600)), step.state);
    assert!(matches!(step.forward, Some(Message::Inv(_))));
    let step = tick(step.state, Event::Idle, at(1200));
    assert_eq!(ConnectionState::Established(at(600)), step.state);
    let step = tick(step.state, Event::Idle, at(1201));
    assert_eq!(ConnectionState::Stale, step.state);
    assert!(step.finished);
}

#[test]
fn a_connection_that_is_over_stays_as_it_is() {
    for state in [ConnectionState::Stale, ConnectionState::Error] {
        let events = vec![
            Event::Idle,
            Event::Disconnected,
            Event::Failed(ParseError::BadMagic),
            Event::Frame(version()),
            Event::Frame(Message::Verack),
            Event::Frame(inv()),
        ];
        for event in events {
            let step = tick(state, event, at(1_000_000));
            assert_eq!(state, step.state);
            assert!(step.forward.is_none());
            assert!(step.finished);
        }
        assert!(state.finished());
    }
    assert!(!ConnectionState::Fresh(at(0)).finished());
    assert!(!ConnectionState::Established(at(0)).finished());
}

#[test]
fn lost_reader_and_bad_frames_are_errors() {
    for state in [
        ConnectionState::Fresh(at(0)),
        ConnectionState::GotVerackAwaitingVersion(at(0)),
        ConnectionState::GotVersionAwaitingVerack(at(0)),
        ConnectionState::Established(at(0)),
    ] {
        let step = tick(state, Event::Disconnected, at(1));
        assert_eq!(ConnectionState::Error, step.state);
        assert!(step.forward.is_none() && step.finished);
        let step = tick(state, Event::Failed(ParseError::BadChecksum), at(1));
        assert_eq!(ConnectionState::Error, step.state);
        assert!(step.forward.is_none() && step.finished);
        let step = tick(state, Event::Idle, at(1));
        assert_eq!(state, step.state);
        assert!(step.forward.is_none() && !step.finished);
    }
}

#[test]
fn transition_table() {
    let now = at(50);
    let fresh = ConnectionState::Fresh(at(0));
    let got_version = ConnectionState::GotVersionAwaitingVerack(at(0));
    let got_verack = ConnectionState::GotVerackAwaitingVersion(at(0));
    let established = ConnectionState::Established(at(0));

    let (next, forward) = transition(fresh, Event::Frame(version()), now);
    assert_eq!(ConnectionState::GotVersionAwaitingVerack(now), next);
    assert!(matches!(forward, Some(Message::Version(_))));
    let (next, forward) = transition(fresh, Event::Frame(Message::Verack), now);
    assert_eq!(ConnectionState::GotVerackAwaitingVersion(now), next);
    assert!(forward.is_none());
    let (next, forward) = transition(fresh, Event::Frame(inv()), now);
    assert_eq!(ConnectionState::Error, next);
    assert!(forward.is_none());

    let (next, forward) = transition(got_version, Event::Frame(Message::Verack), now);
    assert_eq!(ConnectionState::Established(now), next);
    assert!(matches!(forward, Some(Message::Verack)));
    let (next, forward) = transition(got_version, Event::Frame(version()), now);
    assert_eq!(ConnectionState::Error, next);
    assert!(forward.is_none());
    let (next, _) = transition(got_version, Event::Frame(inv()), now);
    assert_eq!(ConnectionState::Error, next);

    let (next, forward) = transition(got_verack, Event::Frame(version()), now);
    assert_eq!(ConnectionState::Established(now), next);
    assert!(matches!(forward, Some(Message::Version(_))));
    let (next, forward) = transition(got_verack, Event::Frame(Message::Verack), now);
    assert_eq!(ConnectionState::Error, next);
    assert!(forward.is_none());
    let (next, _) = transition(got_verack, Event::Frame(inv()), now);
    assert_eq!(ConnectionState::Error, next);

    for message in [version(), Message::Verack, inv()] {
        let command = message.command();
        let (next, forward) = transition(established, Event::Frame(message), now);
        assert_eq!(ConnectionState::Established(now), next);
        assert_eq!(command, forward.unwrap().command());
    }
}

#[test]
fn version_message_of_the_client() {
    let peer = Endpoint::from_ipv4(1, 2, 3, 4, 8444);
    let message = create_version_message(&config(), peer, Timespec::new(7, 8));
    match message {
        Message::Version(v) => {
            assert_eq!(3, v.version());
            assert_eq!(1, v.services());
            assert_eq!(Timespec::new(7, 8), v.timestamp());
            assert_eq!(peer, v.addr_recv());
            assert_eq!(Endpoint::from_ipv4(127, 0, 0, 1, 8444), v.addr_from());
            assert_eq!(0x0102_0304_0506_0708, v.nonce());
            assert_eq!("/bm:1/", v.user_agent());
            assert_eq!(&vec![1u64], v.streams());
            let read = VersionMessage::read(v.payload()).unwrap();
            assert_eq!(Timespec::new(7, 0), read.timestamp());
            assert_eq!(v.payload(), read.payload());
        }
        _ => panic!("not a version"),
    }
}

#[test]
fn config_keeps_its_options() {
    let bootstrap = vec![Endpoint::from_ipv4(5, 45, 99, 75, 8444)];
    let config = Config::new(1, 2, "agent".to_string(), 3, bootstrap.clone()).unwrap();
    assert_eq!(1, config.port());
    assert_eq!(2, config.nonce());
    assert_eq!("agent", config.user_agent());
    assert_eq!(3, config.target_fanout());
    assert_eq!(&bootstrap, config.bootstrap_nodes());
    assert!(Config::new(1, 2, "\u{fc}ber".to_string(), 3, vec![]).is_none());
    assert!(Config::new(1, 2, "a".repeat(5001), 3, vec![]).is_none());
    assert!(Config::new(1, 2, "a".repeat(5000), 3, vec![]).is_some());
}

#[test]
fn durations_and_times() {
    assert_eq!(20, Duration::seconds(20).num_seconds());
    assert_eq!(600, Duration::minutes(10).num_seconds());
    assert_eq!(-60, Duration::minutes(-1).num_seconds());
    let t = Timespec::new(100, 5);
    assert_eq!(Some(Timespec::new(120, 5)), t.checked_add(Duration::seconds(20)));
    assert_eq!(Some(Timespec::new(90, 5)), t.checked_add(Duration::seconds(-10)));
    assert_eq!(None, Timespec::new(i64::MAX, 0).checked_add(Duration::seconds(1)));
    assert_eq!(None, Timespec::new(i64::MIN, 0).checked_add(Duration::seconds(-1)));
    assert!(!t.is_older_than(Duration::seconds(20), Timespec::new(120, 5)));
    assert!(t.is_older_than(Duration::seconds(20), Timespec::new(120, 6)));
    assert!(!t.is_older_than(Duration::seconds(20), Timespec::new(0, 0)));
    assert!(Timespec::new(i64::MIN, 0).is_older_than(Duration::seconds(i64::MAX), at(i64::MAX)));
}
