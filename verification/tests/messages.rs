use bm_client::clock::Timespec;
use bm_client::known_nodes::KnownNode;
use bm_client::message::addr::AddrMessage;
use bm_client::message::frame::{
    check_payload, command_bytes, parse_command, read_header, write_frame, Command, FrameHeader,
};
use bm_client::message::getdata::GetdataMessage;
use bm_client::message::inv::InvMessage;
use bm_client::message::object::{GetPubKeyV4, ObjectBody, ObjectMessage, ObjectType};
use bm_client::message::version::{check_user_agent, VersionMessage};
use bm_client::message::{
    read_message, read_payload, write_message, InventoryVector, Message, ParseError,
};
use bm_client::net::Endpoint;

const EXPIRY: i64 = 0x0007_0605_0403_0201;

fn sample_version() -> VersionMessage {
    VersionMessage::new(
        3,
        1,
        Timespec::new(0x0102_0304, 0),
        Endpoint::from_ipv4(12, 13, 14, 15, 1617),
        Endpoint::from_ipv4(127, 0, 0, 1, 8444),
        0x1122_3344_5566_7788,
        "/bm:1/".to_string(),
        vec![1, 300],
    )
}

fn sample_version_payload() -> Vec<u8> {
    vec![
        0, 0, 0, 3, // version
        0, 0, 0, 0, 0, 0, 0, 1, // services
        0, 0, 0, 0, 1, 2, 3, 4, // timestamp
        0, 0, 0, 0, 0, 0, 0, 0, 0, 0, 0xff, 0xff, 12, 13, 14, 15, 6, 81, // addr_recv
        0, 0, 0, 0, 0, 0, 0, 0, 0, 0, 0xff, 0xff, 127, 0, 0, 1, 0x20, 0xfc, // addr_from
        0x11, 0x22, 0x33, 0x44, 0x55, 0x66, 0x77, 0x88, // nonce
        6, b'/', b'b', b'm', b':', b'1', b'/', // user agent
        2, 1, 0xfd, 0x01, 0x2c, // streams
    ]
}

fn sample_object() -> ObjectMessage {
    ObjectMessage::new(
        0x101b07,
        Timespec::new(EXPIRY, 0),
        ObjectType::GetPubKey,
        4,
        254,
        ObjectBody::GetPubKeyV4(GetPubKeyV4::new()),
    )
}

fn hash(seed: u8) -> InventoryVector {
    let bytes: Vec<u8> = (0..32).map(|i| seed.wrapping_add(i)).collect();
    InventoryVector::new(&bytes)
}

fn frame_of(message: &Message) -> Vec<u8> {
    let mut out = vec![];
    write_message(&mut out, message).unwrap();
    out
}

#[test]
fn version_payload_bytes() {
    let message = sample_version();
    assert_eq!("version".to_string(), message.command());
    assert_eq!(sample_version_payload(), message.payload());
}

#[test]
fn version_round_trip() {
    let message = sample_version();
    let roundtrip = VersionMessage::read(message.payload()).unwrap();
    assert_eq!(3, roundtrip.version());
    assert_eq!(1, roundtrip.services());
    assert_eq!(Timespec::new(0x0102_0304, 0), roundtrip.timestamp());
    assert_eq!(Endpoint::from_ipv4(12, 13, 14, 15, 1617), roundtrip.addr_recv());
    assert_eq!(Endpoint::from_ipv4(127, 0, 0, 1, 8444), roundtrip.addr_from());
    assert_eq!(0x1122_3344_5566_7788, roundtrip.nonce());
    assert_eq!("/bm:1/", roundtrip.user_agent());
    assert_eq!(&vec![1u64, 300], roundtrip.streams());
    assert_eq!(message.payload(), roundtrip.payload());
}

#[test]
fn version_without_streams_and_agent() {
    let message = VersionMessage::new(
        3,
        1,
        Timespec::new(-5, 0),
        Endpoint::new(1, 2),
        Endpoint::new(3, 4),
        0,
        String::new(),
        vec![],
    );
    let payload = message.payload();
    assert_eq!(66, payload.len());
    let roundtrip = VersionMessage::read(payload).unwrap();
    assert_eq!(Timespec::new(-5, 0), roundtrip.timestamp());
    assert_eq!("", roundtrip.user_agent());
    assert!(roundtrip.streams().is_empty());
}

#[test]
fn version_errors() {
    let payload = sample_version_payload();
    for cut in [0, 1, 63, 64, 65, 70, 71, 72, 74] {
        assert!(matches!(
            VersionMessage::read(payload[..cut].to_vec()),
            Err(ParseError::ShortRead)
        ));
    }
    let mut trailing = payload.clone();
    trailing.push(0);
    assert!(matches!(VersionMessage::read(trailing), Err(ParseError::TrailingBytes)));

    let mut bad_agent = payload.clone();
    bad_agent[66] = 0xc3;
    assert!(matches!(VersionMessage::read(bad_agent), Err(ParseError::BadString)));

    let mut long_agent = payload[..64].to_vec();
    long_agent.extend([0xfd, 0x13, 0x89]); // 5001
    long_agent.extend(vec![b'a'; 5001]);
    long_agent.push(0);
    assert!(matches!(VersionMessage::read(long_agent), Err(ParseError::VarIntTooLarge)));

    let mut longest_agent = payload[..64].to_vec();
    longest_agent.extend([0xfd, 0x13, 0x88]); // 5000
    longest_agent.extend(vec![b'a'; 5000]);
    longest_agent.push(0);
    assert_eq!(5000, VersionMessage::read(longest_agent).unwrap().user_agent().len());
}

#[test]
fn user_agent_is_ascii_and_at_most_5000_characters() {
    assert!(check_user_agent(""));
    assert!(check_user_agent("/bm:1/"));
    assert!(check_user_agent(&"a".repeat(5000)));
    assert!(!check_user_agent(&"a".repeat(5001)));
    assert!(!check_user_agent("caf\u{e9}"));
}

#[test]
fn inv_payload_and_round_trip() {
    let message = InvMessage::new(vec![hash(1), hash(100)]);
    assert_eq!("inv".to_string(), message.command());
    let payload = message.payload();
    let mut expected = vec![2u8];
    expected.extend(hash(1).hash());
    expected.extend(hash(100).hash());
    assert_eq!(expected, payload);
    let roundtrip = InvMessage::read(payload).unwrap();
    assert_eq!(&vec![hash(1), hash(100)], roundtrip.inventory());
}

#[test]
fn empty_hash_lists() {
    let inv = InvMessage::new(vec![]);
    assert_eq!(vec![0u8], inv.payload());
    assert!(InvMessage::read(vec![0]).unwrap().inventory().is_empty());
    let getdata = GetdataMessage::new(vec![]);
    assert_eq!(vec![0u8], getdata.payload());
    assert!(GetdataMessage::read(vec![0]).unwrap().inventory().is_empty());
}

#[test]
fn hash_list_errors() {
    let mut payload = vec![2u8];
    payload.extend([7u8; 63]);
    assert!(matches!(GetdataMessage::read(payload.clone()), Err(ParseError::ShortRead)));
    assert!(matches!(InvMessage::read(payload.clone()), Err(ParseError::ShortRead)));
    payload.extend([7u8; 2]);
    assert!(matches!(GetdataMessage::read(payload.clone()), Err(ParseError::TrailingBytes)));
    assert!(matches!(InvMessage::read(payload), Err(ParseError::TrailingBytes)));
    assert!(matches!(GetdataMessage::read(vec![]), Err(ParseError::ShortRead)));
    // 50001 hashes are announced
    let too_many = vec![0xfd, 0xc3, 0x51];
    assert!(matches!(GetdataMessage::read(too_many.clone()), Err(ParseError::VarIntTooLarge)));
    assert!(matches!(InvMessage::read(too_many), Err(ParseError::VarIntTooLarge)));
}

#[test]
fn hash_list_of_the_largest_size() {
    let inventory: Vec<InventoryVector> = (0..50000).map(|i| hash((i % 256) as u8)).collect();
    let message = GetdataMessage::new(inventory.clone());
    let payload = message.payload();
    assert_eq!(3 + 50000 * 32, payload.len());
    assert_eq!([0xfd, 0xc3, 0x50], payload[..3]);
    let roundtrip = GetdataMessage::read(payload).unwrap();
    assert_eq!(&inventory, roundtrip.inventory());
}

#[test]
fn inventory_vector_keeps_its_bytes() {
    let bytes: Vec<u8> = (0..32).collect();
    let vector = InventoryVector::new(&bytes);
    assert_eq!(&bytes[..], &vector.hash()[..]);
    assert!(vector.same_as(&InventoryVector::new(&bytes)));
    assert!(!vector.same_as(&hash(1)));
    assert_eq!(vector, InventoryVector::new(&bytes));
    assert_ne!(vector, hash(1));
}

#[test]
fn addr_drops_peers_that_cannot_be_connected_to() {
    let good = KnownNode::new(Timespec::new(1, 0), 2, 3, Endpoint::from_ipv4(1, 2, 3, 4, 5))
        .unwrap();
    let bad = KnownNode {
        last_seen: Timespec::new(4, 0),
        stream: 5,
        services: 6,
        socket_addr: Endpoint::from_ipv4(1, 2, 3, 4, 0),
    };
    let payload = AddrMessage::new(vec![bad, good, bad]).payload();
    assert_eq!(1 + 3 * 38, payload.len());
    assert_eq!(3, payload[0]);
    let roundtrip = AddrMessage::read(payload).unwrap();
    assert_eq!(&vec![good], roundtrip.addr_list());
}

#[test]
fn addr_sends_whole_seconds() {
    let node = KnownNode::new(Timespec::new(7, 123), 2, 3, Endpoint::from_ipv4(1, 2, 3, 4, 5))
        .unwrap();
    let roundtrip = AddrMessage::read(AddrMessage::new(vec![node]).payload()).unwrap();
    assert_eq!(Timespec::new(7, 0), roundtrip.addr_list()[0].last_seen());
    assert_eq!(2, roundtrip.addr_list()[0].stream());
    assert_eq!(3, roundtrip.addr_list()[0].services());
    assert_eq!(&Endpoint::from_ipv4(1, 2, 3, 4, 5), roundtrip.addr_list()[0].socket_addr());
}

#[test]
fn addr_errors() {
    let node = KnownNode::new(Timespec::new(1, 0), 2, 3, Endpoint::from_ipv4(1, 2, 3, 4, 5))
        .unwrap();
    let payload = AddrMessage::new(vec![node, node]).payload();
    assert!(matches!(
        AddrMessage::read(payload[..payload.len() - 1].to_vec()),
        Err(ParseError::ShortRead)
    ));
    let mut trailing = payload.clone();
    trailing.push(9);
    assert!(matches!(AddrMessage::read(trailing), Err(ParseError::TrailingBytes)));
    // 1001 peers are announced
    assert!(matches!(
        AddrMessage::read(vec![0xfd, 0x03, 0xe9]),
        Err(ParseError::VarIntTooLarge)
    ));
    assert!(matches!(AddrMessage::read(vec![]), Err(ParseError::ShortRead)));
    assert!(AddrMessage::read(vec![0]).unwrap().addr_list().is_empty());
}

#[test]
fn addr_of_the_largest_size() {
    let nodes: Vec<KnownNode> = (0..1000u32)
        .map(|i| {
            KnownNode::new(
                Timespec::new(i as i64, 0),
                i,
                i as u64,
                Endpoint::from_ipv4(10, 0, (i / 256) as u8, (i % 256) as u8, 8444),
            )
            .unwrap()
        })
        .collect();
    let message = AddrMessage::new(nodes.clone());
    let payload = message.payload();
    assert_eq!(3 + 1000 * 38, payload.len());
    assert_eq!(&nodes, AddrMessage::read(payload).unwrap().addr_list());
}

#[test]
fn known_node_refuses_a_bad_endpoint() {
    assert_eq!(
        Err(ParseError::BadEndpoint),
        KnownNode::new(Timespec::new(1, 0), 2, 3, Endpoint::from_ipv4(1, 2, 3, 4, 0))
    );
}

#[test]
fn command_names_are_nul_padded_ascii() {
    assert_eq!(*b"version\0\0\0\0\0", command_bytes(Command::Version));
    assert_eq!(*b"verack\0\0\0\0\0\0", command_bytes(Command::Verack));
    assert_eq!(*b"addr\0\0\0\0\0\0\0\0", command_bytes(Command::Addr));
    assert_eq!(*b"inv\0\0\0\0\0\0\0\0\0", command_bytes(Command::Inv));
    assert_eq!(*b"getdata\0\0\0\0\0", command_bytes(Command::GetData));
    assert_eq!(*b"object\0\0\0\0\0\0", command_bytes(Command::Object));
    for command in [
        Command::Version,
        Command::Verack,
        Command::Addr,
        Command::Inv,
        Command::GetData,
        Command::Object,
    ] {
        assert_eq!(Some(command), parse_command(&command_bytes(command)));
    }
    assert_eq!(None, parse_command(b"ping\0\0\0\0\0\0\0\0"));
    assert_eq!(None, parse_command(b"version\0\0\0\0x"));
    assert_eq!(None, parse_command(b"Version\0\0\0\0\0"));
    assert_eq!(None, parse_command(&[0u8; 12]));
    assert_eq!(None, parse_command(b"version"));
    assert_eq!(None, parse_command(b"version\0\0\0\0\0\0"));
    assert_eq!(None, parse_command(b""));
}

#[test]
fn payload_limits() {
    assert_eq!(1 << 20, Command::Version.max_payload_length());
    assert_eq!(1 << 20, Command::Inv.max_payload_length());
    assert_eq!(1 << 18, Command::Object.max_payload_length());
}

#[test]
fn verack_frame_bytes() {
    let frame = frame_of(&Message::Verack);
    let expected = vec![
        0xe9, 0xbe, 0xb4, 0xd9, // magic
        b'v', b'e', b'r', b'a', b'c', b'k', 0, 0, 0, 0, 0, 0, // command
        0, 0, 0, 0, // length
        0x5d, 0xf6, 0xe0, 0xe2, // checksum
    ];
    assert_eq!(expected, frame);
    let (message, taken) = read_message(&frame, Timespec::new(0, 0)).unwrap();
    assert!(matches!(message, Message::Verack));
    assert_eq!(24, taken);
}

#[test]
fn object_frame_bytes() {
    let frame = frame_of(&Message::Object(sample_object()));
    let mut expected = vec![
        0xe9, 0xbe, 0xb4, 0xd9, // magic
        b'o', b'b', b'j', b'e', b'c', b't', 0, 0, 0, 0, 0, 0, // command
        0, 0, 0, 24, // length
        0xf1, 0xd5, 0x60, 0x94, // checksum
    ];
    expected.extend(sample_object().payload());
    assert_eq!(expected, frame);
}

#[test]
fn frames_round_trip() {
    let now = Timespec::new(EXPIRY - 300, 0);
    let node = KnownNode::new(Timespec::new(1, 0), 2, 3, Endpoint::from_ipv4(1, 2, 3, 4, 5))
        .unwrap();
    let messages = vec![
        Message::Version(sample_version()),
        Message::Verack,
        Message::Addr(AddrMessage::new(vec![node])),
        Message::Inv(InvMessage::new(vec![hash(1)])),
        Message::GetData(GetdataMessage::new(vec![hash(2), hash(3)])),
        Message::Object(sample_object()),
    ];
    let mut stream = vec![];
    for message in &messages {
        write_message(&mut stream, message).unwrap();
    }
    let mut at = 0;
    for message in &messages {
        let (read, taken) = read_message(&stream[at..], now).unwrap();
        assert_eq!(message.command(), read.command());
        assert_eq!(message.payload(), read.payload());
        assert_eq!(24 + message.payload().len(), taken);
        assert_eq!(message.payload().len(), message.weight());
        at += taken;
    }
    assert_eq!(stream.len(), at);
    match read_message(&frame_of(&messages[5]), now).unwrap().0 {
        Message::Object(object) => assert_eq!(sample_object(), object),
        _ => panic!("not an object"),
    }
    match read_message(&frame_of(&messages[2]), now).unwrap().0 {
        Message::Addr(addr) => assert_eq!(&vec![node], addr.addr_list()),
        _ => panic!("not an addr"),
    }
}

#[test]
fn frame_errors() {
    let now = Timespec::new(0, 0);
    let frame = frame_of(&Message::Inv(InvMessage::new(vec![hash(1)])));
    for cut in [0, 1, 23, 24, 30, frame.len() - 1] {
        assert!(matches!(read_message(&frame[..cut], now), Err(ParseError::ShortRead)));
    }
    let mut bad_magic = frame.clone();
    bad_magic[0] ^= 1;
    assert!(matches!(read_message(&bad_magic, now), Err(ParseError::BadMagic)));

    let mut unknown = frame.clone();
    unknown[4] = b'x';
    assert!(matches!(read_message(&unknown, now), Err(ParseError::UnknownCommand)));

    let mut bad_sum = frame.clone();
    bad_sum[20] ^= 1;
    assert!(matches!(read_message(&bad_sum, now), Err(ParseError::BadChecksum)));

    let mut bad_payload = frame.clone();
    bad_payload[30] ^= 1;
    assert!(matches!(read_message(&bad_payload, now), Err(ParseError::BadChecksum)));

    let mut too_big = frame.clone();
    too_big[16..20].copy_from_slice(&[0, 0x10, 0, 1]);
    assert!(matches!(read_message(&too_big, now), Err(ParseError::PayloadTooBig)));

    let mut at_limit = frame.clone();
    at_limit[16..20].copy_from_slice(&[0, 0x10, 0, 0]);
    assert!(matches!(read_message(&at_limit, now), Err(ParseError::ShortRead)));

    // the order of the tests on a header: magic, command, length
    let mut all_wrong = too_big.clone();
    all_wrong[4] = b'x';
    assert!(matches!(read_message(&all_wrong, now), Err(ParseError::UnknownCommand)));
    all_wrong[0] ^= 1;
    assert!(matches!(read_message(&all_wrong, now), Err(ParseError::BadMagic)));
}

#[test]
fn object_frames_have_a_smaller_limit() {
    let mut header = vec![0xe9, 0xbe, 0xb4, 0xd9];
    header.extend(command_bytes(Command::Object));
    header.extend([0, 0x04, 0, 1]);
    header.extend([0, 0, 0, 0]);
    assert_eq!(Err(ParseError::PayloadTooBig), read_header(&header));
    header[16..20].copy_from_slice(&[0, 0x04, 0, 0]);
    assert_eq!(
        Ok(FrameHeader { command: Command::Object, length: 0x4_0000, checksum: [0; 4] }),
        read_header(&header)
    );
}

#[test]
fn header_and_payload_apart() {
    let message = Message::GetData(GetdataMessage::new(vec![hash(9)]));
    let frame = frame_of(&message);
    let header = read_header(&frame[..24]).unwrap();
    assert_eq!(Command::GetData, header.command);
    assert_eq!(33, header.length);
    assert_eq!(Ok(()), check_payload(&header, &frame[24..]));
    assert_eq!(Err(ParseError::ShortRead), check_payload(&header, &frame[24..56]));
    let mut changed = frame[24..].to_vec();
    changed[5] ^= 1;
    assert_eq!(Err(ParseError::BadChecksum), check_payload(&header, &changed));
    assert_eq!(Err(ParseError::ShortRead), read_header(&frame[..23]));
    let read = read_payload(header.command, frame[24..].to_vec(), Timespec::new(0, 0)).unwrap();
    assert_eq!(message.payload(), read.payload());
}

#[test]
fn verack_with_a_payload_has_trailing_bytes() {
    let mut frame = vec![];
    write_frame(&mut frame, Command::Verack, &[1]).unwrap();
    assert!(matches!(
        read_message(&frame, Timespec::new(0, 0)),
        Err(ParseError::TrailingBytes)
    ));
}

#[test]
fn a_payload_over_the_limit_is_not_written() {
    let mut out = vec![1, 2, 3];
    let big = vec![0u8; (1 << 20) + 1];
    assert_eq!(Err(ParseError::PayloadTooBig), write_frame(&mut out, Command::Inv, &big));
    assert_eq!(vec![1, 2, 3], out);
    assert_eq!(Ok(()), write_frame(&mut out, Command::Inv, &big[..1 << 20]));
    assert_eq!(3 + 24 + (1 << 20), out.len());

    let mut out = vec![];
    let object = vec![0u8; (1 << 18) + 1];
    assert_eq!(Err(ParseError::PayloadTooBig), write_frame(&mut out, Command::Object, &object));
    assert!(out.is_empty());

    let hashes: Vec<InventoryVector> = (0..40000).map(|i| hash((i % 256) as u8)).collect();
    let mut out = vec![];
    assert_eq!(
        Err(ParseError::PayloadTooBig),
        write_message(&mut out, &Message::Inv(InvMessage::new(hashes)))
    );
    assert!(out.is_empty());
}
