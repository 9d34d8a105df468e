use bm_client::clock::Timespec;
use bm_client::known_nodes::KnownNode;
use bm_client::message::addr::AddrMessage;
use bm_client::net::Endpoint;

#[test]
fn test_addr_message_payload() {
    let node1 =
        KnownNode::new(Timespec::new(1, 0), 2, 3, Endpoint::from_ipv4(12, 13, 14, 15, 1617))
            .unwrap();
    let node2 =
        KnownNode::new(Timespec::new(4, 0), 5, 6, Endpoint::from_ipv4(22, 23, 24, 25, 2627))
            .unwrap();
    let message = AddrMessage::new(vec![node1, node2]);
    let payload = message.payload();

    assert_eq!("addr".to_string(), message.command());

    let expected = vec![
        2,
        0, 0, 0, 0, 0, 0, 0, 1,
        0, 0, 0, 2,
        0, 0, 0, 0, 0, 0, 0, 3,
        0, 0, 0, 0, 0, 0, 0, 0, 0, 0, 0xff, 0xff, 12, 13, 14, 15,
        6, 81,
        0, 0, 0, 0, 0, 0, 0, 4,
        0, 0, 0, 5,
        0, 0, 0, 0, 0, 0, 0, 6,
        0, 0, 0, 0, 0, 0, 0, 0, 0, 0, 0xff, 0xff, 22, 23, 24, 25,
        10, 67
    ];
    assert_eq!(expected, payload);

    let roundtrip = AddrMessage::read(payload).unwrap();

    assert_eq!("addr".to_string(), roundtrip.command());
    assert_eq!(&vec![node1, node2], roundtrip.addr_list());
}
