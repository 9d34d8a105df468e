use bm_client::clock::Timespec;
use bm_client::config::Config;
use bm_client::connection::ConnectionState;
use bm_client::inventory::Inventory;
use bm_client::known_nodes::{KnownNode, KnownNodes};
use bm_client::message::ParseError;
use bm_client::net::Endpoint;
use bm_client::peer::PeerConnector;
use bm_client::{bootstrap_known_nodes, bootstrap_nodes, BMClient, BMError};

fn at(sec: i64) -> Timespec {
    Timespec::new(sec, 0)
}

fn config(fanout: usize, bootstrap: Vec<Endpoint>) -> Config {
    Config::new(8444, 1, "/bm:1/".to_string(), fanout, bootstrap).unwrap()
}

fn loopback() -> Endpoint {
    Endpoint::from_ipv4(127, 0, 0, 1, 8444)
}

fn node(sec: i64) -> KnownNode {
    KnownNode::new(at(sec), 1, 1, Endpoint::from_ipv4(10, 0, 0, 1, 8444)).unwrap()
}

#[test]
fn bootstrap_nodes_are_the_configured_endpoints() {
    let unusable = Endpoint::from_ipv4(5, 45, 99, 75, 0);
    let other = Endpoint::from_ipv4(5, 45, 99, 75, 8444);
    let config = config(8, vec![loopback(), unusable, other]);
    let now = Timespec::new(1000, 5);
    let expected = vec![
        KnownNode { last_seen: now, stream: 1, services: 1, socket_addr: loopback() },
        KnownNode { last_seen: now, stream: 1, services: 1, socket_addr: other },
    ];
    assert_eq!(expected, bootstrap_nodes(&config, now));
}

#[test]
fn bootstrap_only_where_no_peer_is_known() {
    let config = config(8, vec![loopback()]);
    let now = at(1000);

    let mut empty = KnownNodes::new(vec![]);
    bootstrap_known_nodes(&mut empty, &config, now);
    assert_eq!(1, empty.len());
    assert_eq!(&loopback(), empty.nodes()[0].socket_addr());
    assert_eq!(now, empty.nodes()[0].last_seen());

    let mut known = KnownNodes::new(vec![node(5)]);
    bootstrap_known_nodes(&mut known, &config, now);
    assert_eq!(&vec![node(5)], known.nodes());
}

#[test]
fn client_starts_with_the_bootstrap_nodes() {
    let mut client =
        BMClient::new(config(3, vec![loopback()]), KnownNodes::new(vec![]), Inventory::new());
    assert_eq!(0, client.known_nodes().len());
    let connector = client.start();
    assert_eq!(3, connector.target_fanout());
    assert_eq!(1, client.known_nodes().len());
    let added = client.known_nodes().nodes()[0];
    assert_eq!(loopback(), added.socket_addr);
    assert_eq!(1, added.stream);
    assert_eq!(1, added.services);
    assert!(added.last_seen.sec > 1_600_000_000);
    assert!(added.last_seen.nsec >= 0 && added.last_seen.nsec < 1_000_000_000);
    assert_eq!(3, client.config().target_fanout());
    assert_eq!(0, client.inventory().len());

    // a second start changes nothing
    client.start();
    assert_eq!(&vec![added], client.known_nodes().nodes());
    let (config, known_nodes, inventory) = client.into_parts();
    assert_eq!(8444, config.port());
    assert_eq!(1, known_nodes.len());
    assert_eq!(0, inventory.len());
}

#[test]
fn errors_of_the_client() {
    assert_ne!(BMError::NoDiskAccess, BMError::Network);
}

#[test]
fn known_nodes_store() {
    let mut known_nodes = KnownNodes::new(vec![node(1), node(2)]);
    assert_eq!(2, known_nodes.len());
    known_nodes.add(node(3));
    assert_eq!(&vec![node(1), node(2), node(3)], known_nodes.nodes());

    let address = Endpoint::from_ipv4(9, 9, 9, 9, 9);
    assert_eq!(Ok(()), known_nodes.add_known_node_at(at(50), 7, 8, address));
    assert_eq!(
        KnownNode { last_seen: at(50), stream: 7, services: 8, socket_addr: address },
        known_nodes.nodes()[3]
    );
    let unusable = Endpoint::from_ipv4(9, 9, 9, 9, 0);
    assert_eq!(
        Err(ParseError::BadEndpoint),
        known_nodes.add_known_node_at(at(50), 7, 8, unusable)
    );
    assert_eq!(Err(ParseError::BadEndpoint), known_nodes.add_known_node(7, 8, unusable));
    assert_eq!(4, known_nodes.len());

    assert_eq!(Ok(()), known_nodes.add_known_node(1, 2, address));
    assert_eq!(5, known_nodes.len());
    let added = known_nodes.nodes()[4];
    assert_eq!((1, 2, address), (added.stream, added.services, added.socket_addr));
    assert!(added.last_seen.sec > 1_600_000_000);
}

#[test]
fn random_peer_is_a_known_peer() {
    assert_eq!(None, KnownNodes::new(vec![]).get_random());
    let nodes: Vec<KnownNode> = (0..20).map(node).collect();
    let known_nodes = KnownNodes::new(nodes.clone());
    let mut seen = vec![];
    for _ in 0..400 {
        let picked = known_nodes.get_random().unwrap();
        assert!(nodes.contains(&picked));
        if !seen.contains(&picked) {
            seen.push(picked);
        }
    }
    // the pick does not always fall on the same peer
    assert!(seen.len() > 1);
    let connector = PeerConnector::new(&config(1, vec![]));
    assert!(nodes.contains(&connector.pick_candidate(&known_nodes).unwrap()));
    assert_eq!(None, connector.pick_candidate(&KnownNodes::new(vec![])));
}

#[test]
fn connector_evicts_what_is_over_and_fills_up() {
    let connector = PeerConnector::new(&config(4, vec![]));
    let plan = connector.plan(&vec![]);
    assert!(plan.evict.is_empty());
    assert_eq!(4, plan.open);

    let states = vec![
        ConnectionState::Established(at(1)),
        ConnectionState::Stale,
        ConnectionState::Fresh(at(2)),
        ConnectionState::Error,
        ConnectionState::Error,
        ConnectionState::GotVerackAwaitingVersion(at(3)),
    ];
    let plan = connector.plan(&states);
    assert_eq!(vec![1, 3, 4], plan.evict);
    assert_eq!(1, plan.open);

    let full = vec![ConnectionState::Established(at(1)); 4];
    let plan = connector.plan(&full);
    assert!(plan.evict.is_empty());
    assert_eq!(0, plan.open);

    let over = vec![ConnectionState::GotVersionAwaitingVerack(at(1)); 6];
    assert_eq!(0, connector.plan(&over).open);

    let none = PeerConnector::new(&config(0, vec![]));
    let plan = none.plan(&vec![ConnectionState::Stale]);
    assert_eq!(vec![0], plan.evict);
    assert_eq!(0, plan.open);
}
