//! Protocol messages and their encoding on the wire.

use vstd::prelude::*;
use crate::clock::Timespec;
use crate::known_nodes::KnownNode;
use crate::message::addr::{
    AddrMessage, addr_is_exact, addr_payload, lemma_addr_round_trip, parse_addr,
};
use crate::message::frame::{
    Command, HEADER_LENGTH, check_payload, frame_bytes, lemma_frame_round_trip, parse_frame,
    read_header, write_frame,
};
use crate::message::getdata::GetdataMessage;
use crate::message::inv::InvMessage;
use crate::message::inventory_vector::{
    all_hash_length, hash_list_payload, lemma_hash_list_round_trip, parse_hash_list,
};
use crate::message::object::{
    ObjectMessage, lemma_object_round_trip, object_payload, parse_object, verify_parameters,
};
use crate::message::pow::PowParameters;
use crate::message::version::{
    VersionData, VersionMessage, lemma_version_round_trip, parse_version, version_is_exact,
    version_payload,
};
use crate::message::wire::{Parsed, parse_end};

pub mod addr;
pub mod fields;
pub mod frame;
pub mod getdata;
pub mod inv;
pub mod object;
pub mod pow;
pub mod inventory_vector;
pub mod var_int;
pub mod version;
pub mod wire;

pub use crate::message::inventory_vector::InventoryVector;

verus! {

/// Largest number of entries in one `addr` message.
pub const MAX_NODES_COUNT: usize = 1000;

/// Largest number of hashes in one `inv` message.
pub const MAX_INV_COUNT: usize = 50000;

/// Largest number of hashes in one `getdata` message.
pub const MAX_GETDATA_COUNT: usize = 50000;

/// Largest length in bytes of the user agent of a `version` message.
pub const MAX_USER_AGENT_LENGTH: usize = 5000;

/// Largest payload of a frame that carries anything but an object.
pub const MAX_PAYLOAD_LENGTH: u32 = 0x10_0000;

/// Largest payload of an `object` frame.
pub const MAX_PAYLOAD_LENGTH_FOR_OBJECT: u32 = 0x4_0000;

/// Seconds past its expiry for which an object is still accepted.
pub const OBJECT_EXPIRY_CUTOFF: u64 = 300;

/// Longest time to live of an object, in seconds: 28 days and 3 hours.
pub const MAX_TTL: u64 = 2_430_000;

/// Why a frame or a message body was rejected.
#[derive(Clone, Copy, Debug, PartialEq, Eq)]
pub enum ParseError {
    /// The frame does not start with the network's magic number.
    BadMagic,
    /// The input ended before the declared structure did.
    ShortRead,
    /// The declared payload length is over the limit for the command.
    PayloadTooBig,
    /// The checksum in the header is not that of the payload.
    BadChecksum,
    /// The command name is none of the protocol's.
    UnknownCommand,
    /// A variable-length integer is over the limit given for its field.
    VarIntTooLarge,
    /// Bytes are left after the declared structure.
    TrailingBytes,
    /// An endpoint cannot be connected to.
    BadEndpoint,
    /// A string holds a byte outside ASCII.
    BadString,
    /// The object type code is none of the protocol's.
    UnknownObjectType,
    /// No body format is known for the object's type and version.
    UnknownObjectVersion,
    /// The object expired longer ago than the cutoff allows.
    ObjectExpired,
    /// The object expires later than the longest time to live allows.
    ObjectLivesTooLong,
    /// The nonce is no proof of work for the object.
    UnacceptablePow,
}

/// A message of the protocol.
pub enum Message {
    Version(VersionMessage),
    Verack,
    Addr(AddrMessage),
    Inv(InvMessage),
    GetData(GetdataMessage),
    Object(ObjectMessage),
}

/// What a message says, as plain values.
pub enum MessageData {
    Version(VersionData),
    Verack,
    Addr(Seq<KnownNode>),
    Inv(Seq<Seq<u8>>),
    GetData(Seq<Seq<u8>>),
    Object(ObjectMessage),
}

impl View for Message {
    type V = MessageData;

    open spec fn view(&self) -> MessageData {
        match self {
            Message::Version(m) => MessageData::Version(m@),
            Message::Verack => MessageData::Verack,
            Message::Addr(m) => MessageData::Addr(m@),
            Message::Inv(m) => MessageData::Inv(m@),
            Message::GetData(m) => MessageData::GetData(m@),
            Message::Object(m) => MessageData::Object(*m),
        }
    }
}

impl MessageData {
    /// The command of the frame that carries the message.
    pub open spec fn command(self) -> Command {
        match self {
            MessageData::Version(_) => Command::Version,
            MessageData::Verack => Command::Verack,
            MessageData::Addr(_) => Command::Addr,
            MessageData::Inv(_) => Command::Inv,
            MessageData::GetData(_) => Command::GetData,
            MessageData::Object(_) => Command::Object,
        }
    }

    /// The payload of the frame that carries the message.
    pub open spec fn payload(self) -> Seq<u8> {
        match self {
            MessageData::Version(v) => version_payload(v),
            MessageData::Verack => Seq::empty(),
            MessageData::Addr(nodes) => addr_payload(nodes),
            MessageData::Inv(hashes) => hash_list_payload(hashes),
            MessageData::GetData(hashes) => hash_list_payload(hashes),
            MessageData::Object(m) => object_payload(m),
        }
    }

    /// The frame that carries the message.
    pub open spec fn frame(self) -> Seq<u8> {
        frame_bytes(self.command(), self.payload())
    }

    /// Whether the message survives the wire unchanged, with the proof of
    /// work of an object judged by `p`: its body does, and its payload is
    /// within the limit of its command.
    pub open spec fn is_exact(self, p: PowParameters) -> bool {
        &&& self.payload().len() <= self.command().payload_limit()
        &&& match self {
            MessageData::Version(v) => version_is_exact(v),
            MessageData::Verack => true,
            MessageData::Addr(nodes) => addr_is_exact(nodes),
            MessageData::Inv(hashes) => hashes.len() <= MAX_INV_COUNT && all_hash_length(hashes),
            MessageData::GetData(hashes) => hashes.len() <= MAX_GETDATA_COUNT && all_hash_length(
                hashes,
            ),
            MessageData::Object(m) => m.is_exact(p),
        }
    }
}

/// Decodes the payload of a frame with the given command; the proof of work
/// of an object is judged by `p`.
pub open spec fn parse_payload(command: Command, payload: Seq<u8>, p: PowParameters) -> Result<
    MessageData,
    ParseError,
> {
    match command {
        Command::Version => match parse_version(payload) {
            Ok(v) => Ok(MessageData::Version(v)),
            Err(e) => Err(e),
        },
        Command::Verack => match parse_end(payload) {
            Ok(_) => Ok(MessageData::Verack),
            Err(e) => Err(e),
        },
        Command::Addr => match parse_addr(payload) {
            Ok(nodes) => Ok(MessageData::Addr(nodes)),
            Err(e) => Err(e),
        },
        Command::Inv => match parse_hash_list(payload, MAX_INV_COUNT) {
            Ok(hashes) => Ok(MessageData::Inv(hashes)),
            Err(e) => Err(e),
        },
        Command::GetData => match parse_hash_list(payload, MAX_GETDATA_COUNT) {
            Ok(hashes) => Ok(MessageData::GetData(hashes)),
            Err(e) => Err(e),
        },
        Command::Object => match parse_object(payload, p) {
            Ok(m) => Ok(MessageData::Object(m)),
            Err(e) => Err(e),
        },
    }
}

/// Decodes the first frame in `s` and gives the message in it and what
/// follows the frame.
pub open spec fn parse_message(s: Seq<u8>, p: PowParameters) -> Parsed<MessageData> {
    match parse_frame(s) {
        Err(e) => Err(e),
        Ok(((command, payload), rest)) => match parse_payload(command, payload, p) {
            Err(e) => Err(e),
            Ok(message) => Ok((message, rest)),
        },
    }
}

/// Decoding the payload of a message gives the message, where it survives
/// the wire unchanged.
pub proof fn lemma_payload_round_trip(message: MessageData, p: PowParameters)
    requires
        message.is_exact(p),
    ensures
        parse_payload(message.command(), message.payload(), p) == Ok::<MessageData, ParseError>(
            message,
        ),
{
    match message {
        MessageData::Version(v) => {
            lemma_version_round_trip(v);
        },
        MessageData::Verack => {},
        MessageData::Addr(nodes) => {
            lemma_addr_round_trip(nodes);
        },
        MessageData::Inv(hashes) => {
            lemma_hash_list_round_trip(hashes, MAX_INV_COUNT);
        },
        MessageData::GetData(hashes) => {
            lemma_hash_list_round_trip(hashes, MAX_GETDATA_COUNT);
        },
        MessageData::Object(m) => {
            lemma_object_round_trip(m, p);
        },
    }
}

/// Decoding the frame of a message gives the message and what followed the
/// frame, for every kind of message that survives the wire unchanged.
pub proof fn lemma_message_round_trip(message: MessageData, p: PowParameters, rest: Seq<u8>)
    requires
        message.is_exact(p),
    ensures
        parse_message(message.frame() + rest, p) == Ok::<(MessageData, Seq<u8>), ParseError>(
            (message, rest),
        ),
{
    lemma_frame_round_trip(message.command(), message.payload(), rest);
    lemma_payload_round_trip(message, p);
}

impl Message {
    /// The command of the frame that carries the message.
    pub fn command(&self) -> (command: Command)
        ensures
            command == self@.command(),
    {
        match self {
            Message::Version(_) => Command::Version,
            Message::Verack => Command::Verack,
            Message::Addr(_) => Command::Addr,
            Message::Inv(_) => Command::Inv,
            Message::GetData(_) => Command::GetData,
            Message::Object(_) => Command::Object,
        }
    }

    /// The payload of the frame that carries the message.
    pub fn payload(&self) -> (payload: Vec<u8>)
        ensures
            payload@ == self@.payload(),
    {
        match self {
            Message::Version(m) => m.payload(),
            Message::Verack => Vec::new(),
            Message::Addr(m) => m.payload(),
            Message::Inv(m) => m.payload(),
            Message::GetData(m) => m.payload(),
            Message::Object(m) => m.payload(),
        }
    }

    /// How many bytes the message weighs in a queue: those of its payload.
    pub fn weight(&self) -> (weight: usize)
        ensures
            weight == self@.payload().len(),
    {
        self.payload().len()
    }
}

/// Decodes the payload of a frame with the given command; the proof of work
/// of an object is judged at the time `now`.
pub fn read_payload(command: Command, payload: Vec<u8>, now: Timespec) -> (r: Result<
    Message,
    ParseError,
>)
    ensures
        match parse_payload(command, payload@, verify_parameters(now)) {
            Ok(message) => r matches Ok(m) && m@ == message,
            Err(e) => r == Err::<Message, ParseError>(e),
        },
{
    match command {
        Command::Version => {
            let message = VersionMessage::read(payload)?;
            Ok(Message::Version(*message))
        },
        Command::Verack => {
            if payload.len() == 0 {
                Ok(Message::Verack)
            } else {
                Err(ParseError::TrailingBytes)
            }
        },
        Command::Addr => {
            let message = AddrMessage::read(payload)?;
            Ok(Message::Addr(*message))
        },
        Command::Inv => {
            let message = InvMessage::read(payload)?;
            Ok(Message::Inv(*message))
        },
        Command::GetData => {
            let message = GetdataMessage::read(payload)?;
            Ok(Message::GetData(*message))
        },
        Command::Object => {
            let message = ObjectMessage::read_with_time(now, payload)?;
            Ok(Message::Object(*message))
        },
    }
}

/// Decodes the first frame in `frame`, judging the proof of work of an
/// object at the time `now`, and says how many bytes the frame took.
pub fn read_message(frame: &[u8], now: Timespec) -> (r: Result<(Message, usize), ParseError>)
    ensures
        match parse_message(frame@, verify_parameters(now)) {
            Ok((message, rest)) => r matches Ok((m, taken)) && m@ == message && taken
                <= frame@.len() && frame@.skip(taken as int) == rest,
            Err(e) => r == Err::<(Message, usize), ParseError>(e),
        },
{
    if frame.len() < HEADER_LENGTH {
        return Err(ParseError::ShortRead);
    }
    let header = read_header(frame)?;
    let length = header.length as usize;
    if frame.len() - HEADER_LENGTH < length {
        return Err(ParseError::ShortRead);
    }
    let payload = vstd::slice::slice_subrange(frame, HEADER_LENGTH, HEADER_LENGTH + length);
    check_payload(&header, payload)?;
    let message = read_payload(header.command, vstd::slice::slice_to_vec(payload), now)?;
    Ok((message, HEADER_LENGTH + length))
}

/// Appends the frame of `message`, or fails with `PayloadTooBig` and appends
/// nothing where its payload is over the limit of its command.
pub fn write_message(out: &mut Vec<u8>, message: &Message) -> (r: Result<(), ParseError>)
    ensures
        message@.payload().len() <= message@.command().payload_limit() ==> r is Ok && final(out)@
            == old(out)@ + message@.frame(),
        message@.payload().len() > message@.command().payload_limit() ==> r == Err::<
            (),
            ParseError,
        >(ParseError::PayloadTooBig) && final(out)@ == old(out)@,
{
    let payload = message.payload();
    write_frame(out, message.command(), payload.as_slice())
}

} // verus!
