//! The `version` message: what a node says of itself when a connection
//! opens.

use vstd::prelude::*;
use vstd::utf8::is_ascii_chars;
use crate::clock::Timespec;
use crate::message::{MAX_USER_AGENT_LENGTH, ParseError};
use crate::message::fields::{
    endpoint_bytes, lemma_endpoint_round_trip, lemma_timestamp_round_trip, lemma_var_str_round_trip,
    parse_var_str, read_address_and_port, read_timestamp, read_var_str, timestamp_bytes, var_str,
    write_address_and_port, write_timestamp, write_var_str,
};
use crate::message::var_int::{
    lemma_var_int_round_trip, parse_var_int, read_var_int, var_int, write_var_int_64,
};
use crate::message::wire::{
    Cursor, Parsed, be_write_u32, be_write_u64, i64_from_be, lemma_u32_round_trip,
    lemma_u64_round_trip, parse_end, u128_from_be, u16_from_be, u32_be, u32_from_be, u64_be,
    u64_from_be,
};
use crate::net::Endpoint;

verus! {

/// Length in bytes of the fields of fixed width at the start of a `version`
/// payload.
pub const VERSION_FIXED_LENGTH: usize = 64;

/// What a `version` message says, as plain values.
pub struct VersionData {
    /// The version of the protocol that the node speaks.
    pub version: u32,
    /// The services that the node offers, as a bit field.
    pub services: u64,
    /// The node's time.
    pub timestamp: Timespec,
    /// The endpoint of the peer as the node sees it.
    pub addr_recv: Endpoint,
    /// The endpoint of the node itself.
    pub addr_from: Endpoint,
    /// A number by which a node detects a connection to itself.
    pub nonce: u64,
    /// The name of the node's software.
    pub user_agent: Seq<char>,
    /// The streams that the node is interested in.
    pub streams: Seq<u64>,
}

/// The stream numbers one after the other, each as a variable-length
/// integer.
pub open spec fn streams_bytes(streams: Seq<u64>) -> Seq<u8>
    decreases streams.len(),
{
    if streams.len() == 0 {
        Seq::empty()
    } else {
        var_int(streams[0]) + streams_bytes(streams.drop_first())
    }
}

/// The fields of fixed width at the start of a `version` payload.
pub open spec fn version_fixed_bytes(v: VersionData) -> Seq<u8> {
    u32_be(v.version) + u64_be(v.services) + timestamp_bytes(v.timestamp) + endpoint_bytes(
        v.addr_recv,
    ) + endpoint_bytes(v.addr_from) + u64_be(v.nonce)
}

/// The payload of a `version` message: the fields of fixed width, the user
/// agent as a string, and the number of streams followed by the streams.
pub open spec fn version_payload(v: VersionData) -> Seq<u8> {
    version_fixed_bytes(v) + var_str(v.user_agent) + var_int(v.streams.len() as u64)
        + streams_bytes(v.streams)
}

/// Decodes `count` stream numbers.
pub open spec fn parse_streams(s: Seq<u8>, count: nat) -> Parsed<Seq<u64>>
    decreases count,
{
    if count == 0 {
        Ok((Seq::empty(), s))
    } else {
        match parse_var_int(s, u64::MAX) {
            Err(e) => Err(e),
            Ok((stream, rest)) => match parse_streams(rest, (count - 1) as nat) {
                Err(e) => Err(e),
                Ok((streams, end)) => Ok((seq![stream] + streams, end)),
            },
        }
    }
}

/// The endpoint in the first 18 bytes of `s`.
pub open spec fn endpoint_at(s: Seq<u8>) -> Endpoint
    recommends
        s.len() >= 18,
{
    Endpoint { address: u128_from_be(s), port: u16_from_be(s.skip(16)) }
}

/// Decodes a whole `version` payload: the fields of fixed width, a user
/// agent of at most 5000 ASCII bytes, the streams, and nothing after them.
pub open spec fn parse_version(s: Seq<u8>) -> Result<VersionData, ParseError> {
    if s.len() < VERSION_FIXED_LENGTH {
        Err(ParseError::ShortRead)
    } else {
        match parse_var_str(s.skip(64), MAX_USER_AGENT_LENGTH) {
            Err(e) => Err(e),
            Ok((user_agent, after_agent)) => match parse_var_int(after_agent, u64::MAX) {
                Err(e) => Err(e),
                Ok((count, after_count)) => match parse_streams(after_count, count as nat) {
                    Err(e) => Err(e),
                    Ok((streams, end)) => match parse_end(end) {
                        Err(e) => Err(e),
                        Ok(_) => Ok(
                            VersionData {
                                version: u32_from_be(s),
                                services: u64_from_be(s.skip(4)),
                                timestamp: Timespec { sec: i64_from_be(s.skip(12)), nsec: 0 },
                                addr_recv: endpoint_at(s.skip(20)),
                                addr_from: endpoint_at(s.skip(38)),
                                nonce: u64_from_be(s.skip(56)),
                                user_agent,
                                streams,
                            },
                        ),
                    },
                },
            },
        }
    }
}

/// Whether a `version` message with these values survives the wire
/// unchanged: its time is a whole second, its user agent is ASCII and 5000
/// characters at most, and the number of its streams fits 64 bits.
pub open spec fn version_is_exact(v: VersionData) -> bool {
    &&& v.timestamp.nsec == 0
    &&& is_ascii_chars(v.user_agent)
    &&& v.user_agent.len() <= MAX_USER_AGENT_LENGTH
    &&& v.streams.len() <= u64::MAX
}

/// The bytes of the streams with one more stream at the end.
pub proof fn lemma_streams_bytes_push(streams: Seq<u64>, stream: u64)
    ensures
        streams_bytes(streams.push(stream)) == streams_bytes(streams) + var_int(stream),
    decreases streams.len(),
{
    let longer = streams.push(stream);
    if streams.len() == 0 {
        assert(longer.drop_first() =~= Seq::<u64>::empty());
        assert(streams_bytes(longer.drop_first()) =~= Seq::<u8>::empty());
        assert(streams_bytes(longer) =~= var_int(stream));
        assert(streams_bytes(streams) + var_int(stream) =~= var_int(stream));
    } else {
        lemma_streams_bytes_push(streams.drop_first(), stream);
        assert(longer.drop_first() =~= streams.drop_first().push(stream));
        assert(streams_bytes(longer) =~= streams_bytes(streams) + var_int(stream));
    }
}

/// Decoding the bytes of streams gives the streams and what followed.
pub proof fn lemma_streams_round_trip(streams: Seq<u64>, rest: Seq<u8>)
    ensures
        parse_streams(streams_bytes(streams) + rest, streams.len()) == Ok::<
            (Seq<u64>, Seq<u8>),
            ParseError,
        >((streams, rest)),
    decreases streams.len(),
{
    if streams.len() == 0 {
        assert(streams_bytes(streams) + rest =~= rest);
        assert(streams =~= Seq::<u64>::empty());
    } else {
        let tail = streams.drop_first();
        let after = streams_bytes(tail) + rest;
        lemma_var_int_round_trip(streams[0], u64::MAX, after);
        assert(streams_bytes(streams) + rest =~= var_int(streams[0]) + after);
        lemma_streams_round_trip(tail, rest);
        assert(seq![streams[0]] + tail =~= streams);
    }
}

/// Decoding the payload of a `version` message gives what it says, where
/// that survives the wire unchanged.
pub proof fn lemma_version_round_trip(v: VersionData)
    requires
        version_is_exact(v),
    ensures
        parse_version(version_payload(v)) == Ok::<VersionData, ParseError>(v),
{
    let s = version_payload(v);
    let tail = var_str(v.user_agent) + var_int(v.streams.len() as u64) + streams_bytes(v.streams);
    let after_agent = var_int(v.streams.len() as u64) + streams_bytes(v.streams);
    lemma_version_fixed_round_trip(v, tail);
    assert(s =~= version_fixed_bytes(v) + tail);
    assert(s.skip(64) =~= tail);
    assert(tail =~= var_str(v.user_agent) + after_agent);
    lemma_var_str_round_trip(v.user_agent, MAX_USER_AGENT_LENGTH, after_agent);
    lemma_var_int_round_trip(v.streams.len() as u64, u64::MAX, streams_bytes(v.streams));
    lemma_streams_round_trip(v.streams, Seq::<u8>::empty());
    assert(streams_bytes(v.streams) + Seq::<u8>::empty() =~= streams_bytes(v.streams));
}

/// The fields of fixed width are 64 bytes and are read back from their
/// places, whatever follows.
proof fn lemma_version_fixed_round_trip(v: VersionData, rest: Seq<u8>)
    requires
        v.timestamp.nsec == 0,
    ensures
        version_fixed_bytes(v).len() == 64,
        ({
            let s = version_fixed_bytes(v) + rest;
            &&& u32_from_be(s) == v.version
            &&& u64_from_be(s.skip(4)) == v.services
            &&& (Timespec { sec: i64_from_be(s.skip(12)), nsec: 0 }) == v.timestamp
            &&& endpoint_at(s.skip(20)) == v.addr_recv
            &&& endpoint_at(s.skip(38)) == v.addr_from
            &&& u64_from_be(s.skip(56)) == v.nonce
        }),
{
    let s = version_fixed_bytes(v) + rest;
    let after_nonce = rest;
    let after_from = u64_be(v.nonce) + after_nonce;
    let after_recv = endpoint_bytes(v.addr_from) + after_from;
    let after_time = endpoint_bytes(v.addr_recv) + after_recv;
    let after_services = timestamp_bytes(v.timestamp) + after_time;
    let after_version = u64_be(v.services) + after_services;
    lemma_u32_round_trip(v.version, after_version);
    lemma_u64_round_trip(v.services, after_services);
    lemma_timestamp_round_trip(v.timestamp, after_time);
    lemma_endpoint_round_trip(v.addr_recv, after_recv);
    lemma_endpoint_round_trip(v.addr_from, after_from);
    lemma_u64_round_trip(v.nonce, after_nonce);
    assert(s =~= u32_be(v.version) + after_version);
    assert(s.skip(4) =~= after_version);
    assert(s.skip(12) =~= after_services);
    assert(s.skip(20) =~= after_time);
    assert(s.skip(38) =~= after_recv);
    assert(s.skip(56) =~= after_from);
}

/// The streams read so far put before what decoding the rest gives.
pub open spec fn streams_after(read: Seq<u64>, rest: Parsed<Seq<u64>>) -> Parsed<Seq<u64>> {
    match rest {
        Ok((streams, end)) => Ok((read + streams, end)),
        Err(e) => Err(e),
    }
}

/// Whether a text can be the user agent of a `version` message: it is ASCII
/// and 5000 characters at most.
pub open spec fn is_user_agent(text: Seq<char>) -> bool {
    is_ascii_chars(text) && text.len() <= MAX_USER_AGENT_LENGTH
}

/// Whether `text` can be the user agent of a `version` message.
pub fn check_user_agent(text: &str) -> (ok: bool)
    ensures
        ok == is_user_agent(text@),
{
    if !text.is_ascii() {
        return false;
    }
    proof {
        vstd::string::is_ascii_spec_bytes(text);
    }
    text.as_bytes().len() <= MAX_USER_AGENT_LENGTH
}

/// What a node says of itself when a connection opens.
pub struct VersionMessage {
    version: u32,
    services: u64,
    timestamp: Timespec,
    addr_recv: Endpoint,
    addr_from: Endpoint,
    nonce: u64,
    user_agent: String,
    streams: Vec<u64>,
}

impl View for VersionMessage {
    type V = VersionData;

    closed spec fn view(&self) -> VersionData {
        VersionData {
            version: self.version,
            services: self.services,
            timestamp: self.timestamp,
            addr_recv: self.addr_recv,
            addr_from: self.addr_from,
            nonce: self.nonce,
            user_agent: self.user_agent@,
            streams: self.streams@,
        }
    }
}

impl VersionMessage {
    #[verifier::type_invariant]
    spec fn user_agent_fits(&self) -> bool {
        is_user_agent(self.user_agent@)
    }

    /// The message that says the given values. The user agent is ASCII and
    /// 5000 characters at most.
    pub fn new(
        version: u32,
        services: u64,
        timestamp: Timespec,
        addr_recv: Endpoint,
        addr_from: Endpoint,
        nonce: u64,
        user_agent: String,
        streams: Vec<u64>,
    ) -> (message: VersionMessage)
        requires
            is_user_agent(user_agent@),
        ensures
            message@ == (VersionData {
                version,
                services,
                timestamp,
                addr_recv,
                addr_from,
                nonce,
                user_agent: user_agent@,
                streams: streams@,
            }),
    {
        VersionMessage {
            version,
            services,
            timestamp,
            addr_recv,
            addr_from,
            nonce,
            user_agent,
            streams,
        }
    }

    /// Decodes the payload of a `version` frame.
    #[verifier::loop_isolation(false)]
    pub fn read(payload: Vec<u8>) -> (r: Result<Box<VersionMessage>, ParseError>)
        ensures
            match parse_version(payload@) {
                Ok(v) => r matches Ok(message) && message@ == v,
                Err(e) => r == Err::<Box<VersionMessage>, ParseError>(e),
            },
    {
        let ghost s = payload@;
        let mut cursor = Cursor::new(payload.as_slice());
        if cursor.remaining_len() < VERSION_FIXED_LENGTH {
            return Err(ParseError::ShortRead);
        }
        let version = cursor.read_u32()?;
        let services = cursor.read_u64()?;
        let timestamp = read_timestamp(&mut cursor)?;
        let addr_recv = read_address_and_port(&mut cursor)?;
        let addr_from = read_address_and_port(&mut cursor)?;
        let nonce = cursor.read_u64()?;
        proof {
            assert(s.skip(4).skip(8) =~= s.skip(12));
            assert(s.skip(12).skip(8) =~= s.skip(20));
            assert(s.skip(20).skip(18) =~= s.skip(38));
            assert(s.skip(38).skip(18) =~= s.skip(56));
            assert(s.skip(56).skip(8) =~= s.skip(64));
        }
        let user_agent = read_var_str(&mut cursor, MAX_USER_AGENT_LENGTH)?;
        let count = read_var_int(&mut cursor, u64::MAX)?;
        let ghost after_count = cursor.remaining();
        let mut streams: Vec<u64> = Vec::new();
        let mut i: u64 = 0;
        proof {
            let rest = parse_streams(after_count, count as nat);
            match rest {
                Ok((tail, end)) => {
                    assert(Seq::<u64>::empty() + tail =~= tail);
                },
                Err(_) => {},
            }
        }
        while i < count
            invariant
                i <= count,
                streams@.len() == i,
                parse_streams(after_count, count as nat) == streams_after(
                    streams@,
                    parse_streams(cursor.remaining(), (count - i) as nat),
                ),
            decreases count - i,
        {
            let ghost read = streams@;
            let r = read_var_int(&mut cursor, u64::MAX);
            let stream = match r {
                Ok(stream) => stream,
                Err(e) => {
                    return Err(e);
                },
            };
            streams.push(stream);
            proof {
                let rest = parse_streams(cursor.remaining(), (count - i - 1) as nat);
                match rest {
                    Ok((tail, end)) => {
                        assert(read + (seq![stream] + tail) =~= read.push(stream) + tail);
                    },
                    Err(_) => {},
                }
            }
            i = i + 1;
        }
        proof {
            assert(streams@ + Seq::<u64>::empty() =~= streams@);
        }
        cursor.check_no_more_data()?;
        proof {
            lemma_decoded_agent_fits(s.skip(64), user_agent@);
        }
        Ok(
            Box::new(
                VersionMessage::new(
                    version,
                    services,
                    timestamp,
                    addr_recv,
                    addr_from,
                    nonce,
                    user_agent,
                    streams,
                ),
            ),
        )
    }

    /// The version of the protocol that the node speaks.
    pub fn version(&self) -> (version: u32)
        ensures
            version == self@.version,
    {
        self.version
    }

    /// The services that the node offers.
    pub fn services(&self) -> (services: u64)
        ensures
            services == self@.services,
    {
        self.services
    }

    /// The node's time.
    pub fn timestamp(&self) -> (timestamp: Timespec)
        ensures
            timestamp == self@.timestamp,
    {
        self.timestamp
    }

    /// The endpoint of the peer as the node sees it.
    pub fn addr_recv(&self) -> (endpoint: Endpoint)
        ensures
            endpoint == self@.addr_recv,
    {
        self.addr_recv
    }

    /// The endpoint of the node itself.
    pub fn addr_from(&self) -> (endpoint: Endpoint)
        ensures
            endpoint == self@.addr_from,
    {
        self.addr_from
    }

    /// The number by which a node detects a connection to itself.
    pub fn nonce(&self) -> (nonce: u64)
        ensures
            nonce == self@.nonce,
    {
        self.nonce
    }

    /// The name of the node's software.
    pub fn user_agent(&self) -> (user_agent: &str)
        ensures
            user_agent@ == self@.user_agent,
            is_user_agent(user_agent@),
    {
        proof {
            use_type_invariant(self);
        }
        self.user_agent.as_str()
    }

    /// The streams that the node is interested in.
    pub fn streams(&self) -> (streams: &Vec<u64>)
        ensures
            streams@ == self@.streams,
    {
        &self.streams
    }

    /// The command name of the frame, `version`.
    pub fn command(&self) -> (name: String)
        ensures
            name@ == "version"@,
    {
        "version".to_owned()
    }

    /// The payload of the frame.
    pub fn payload(&self) -> (payload: Vec<u8>)
        ensures
            payload@ == version_payload(self@),
    {
        proof {
            use_type_invariant(self);
        }
        let mut payload = Vec::new();
        be_write_u32(&mut payload, self.version);
        be_write_u64(&mut payload, self.services);
        write_timestamp(&mut payload, self.timestamp);
        write_address_and_port(&mut payload, &self.addr_recv);
        write_address_and_port(&mut payload, &self.addr_from);
        be_write_u64(&mut payload, self.nonce);
        assert(payload@ =~= version_fixed_bytes(self@));
        write_var_str(&mut payload, self.user_agent.as_str());
        write_var_int_64(&mut payload, self.streams.len() as u64);
        let ghost head = payload@;
        let mut i: usize = 0;
        assert(self.streams@.take(0) =~= Seq::<u64>::empty());
        while i < self.streams.len()
            invariant
                i <= self.streams.len(),
                payload@ == head + streams_bytes(self.streams@.take(i as int)),
            decreases self.streams.len() - i,
        {
            write_var_int_64(&mut payload, self.streams[i]);
            proof {
                lemma_streams_bytes_push(self.streams@.take(i as int), self.streams@[i as int]);
                assert(self.streams@.take(i + 1) =~= self.streams@.take(i as int).push(
                    self.streams@[i as int],
                ));
            }
            i = i + 1;
        }
        assert(self.streams@.take(i as int) =~= self.streams@);
        payload
    }
}

/// A user agent that was decoded within the limit is one that a message may
/// hold.
proof fn lemma_decoded_agent_fits(s: Seq<u8>, text: Seq<char>)
    requires
        parse_var_str(s, MAX_USER_AGENT_LENGTH) is Ok,
        parse_var_str(s, MAX_USER_AGENT_LENGTH).unwrap().0 == text,
    ensures
        is_user_agent(text),
{
    let (n, rest) = parse_var_int(s, MAX_USER_AGENT_LENGTH as u64).unwrap();
    let bytes = rest.take(n as int);
    assert forall|i: int| 0 <= i < text.len() implies '\0' <= #[trigger] text[i] <= '\u{7f}' by {
        assert(bytes[i] < 0x80);
        assert(text[i] == bytes[i] as char);
    }
}

} // verus!
