//! The frame around every message: magic number, command name, length and
//! checksum of the payload, then the payload.

use vstd::prelude::*;
use crate::checksum::{checksum, checksum_of};
use crate::message::{MAX_PAYLOAD_LENGTH, MAX_PAYLOAD_LENGTH_FOR_OBJECT, ParseError};
use crate::message::fields::ascii_bytes;
use crate::message::wire::{
    Cursor, Parsed, be_write_u32, lemma_u32_round_trip, u32_be,
    u32_from_be,
};

verus! {

/// The number that every frame of the network starts with.
pub const MAGIC: u32 = 0xE9BE_B4D9;

/// Length in bytes of the command name in a header.
pub const COMMAND_LENGTH: usize = 12;

/// Length in bytes of a header: magic number, command name, payload length
/// and checksum.
pub const HEADER_LENGTH: usize = 24;

/// The commands of the protocol.
#[derive(Clone, Copy, Debug, PartialEq, Eq)]
pub enum Command {
    Version,
    Verack,
    Addr,
    Inv,
    GetData,
    Object,
}

impl Command {
    /// The name of the command.
    pub open spec fn name(self) -> Seq<char> {
        match self {
            Command::Version => "version"@,
            Command::Verack => "verack"@,
            Command::Addr => "addr"@,
            Command::Inv => "inv"@,
            Command::GetData => "getdata"@,
            Command::Object => "object"@,
        }
    }

    /// The largest payload that a frame with this command may carry.
    pub open spec fn payload_limit(self) -> u32 {
        if self == Command::Object {
            MAX_PAYLOAD_LENGTH_FOR_OBJECT
        } else {
            MAX_PAYLOAD_LENGTH
        }
    }

    /// The largest payload that a frame with this command may carry.
    pub fn max_payload_length(self) -> (limit: u32)
        ensures
            limit == self.payload_limit(),
    {
        match self {
            Command::Object => MAX_PAYLOAD_LENGTH_FOR_OBJECT,
            _ => MAX_PAYLOAD_LENGTH,
        }
    }
}

/// A command name in a header: its ASCII bytes, then zero bytes up to a
/// length of 12.
pub open spec fn command_field(command: Command) -> Seq<u8> {
    ascii_bytes(command.name()) + Seq::new(
        (COMMAND_LENGTH - command.name().len()) as nat,
        |i: int| 0u8,
    )
}

/// The command that the bytes of a command name stand for.
pub open spec fn command_of_field(field: Seq<u8>) -> Option<Command> {
    if field == command_field(Command::Version) {
        Some(Command::Version)
    } else if field == command_field(Command::Verack) {
        Some(Command::Verack)
    } else if field == command_field(Command::Addr) {
        Some(Command::Addr)
    } else if field == command_field(Command::Inv) {
        Some(Command::Inv)
    } else if field == command_field(Command::GetData) {
        Some(Command::GetData)
    } else if field == command_field(Command::Object) {
        Some(Command::Object)
    } else {
        None
    }
}

/// The 12 bytes of each command name, written out.
pub proof fn lemma_command_fields()
    ensures
        command_field(Command::Version) == seq![
            0x76u8, 0x65, 0x72, 0x73, 0x69, 0x6f, 0x6e, 0, 0, 0, 0, 0,
        ],
        command_field(Command::Verack) == seq![
            0x76u8, 0x65, 0x72, 0x61, 0x63, 0x6b, 0, 0, 0, 0, 0, 0,
        ],
        command_field(Command::Addr) == seq![0x61u8, 0x64, 0x64, 0x72, 0, 0, 0, 0, 0, 0, 0, 0],
        command_field(Command::Inv) == seq![0x69u8, 0x6e, 0x76, 0, 0, 0, 0, 0, 0, 0, 0, 0],
        command_field(Command::GetData) == seq![
            0x67u8, 0x65, 0x74, 0x64, 0x61, 0x74, 0x61, 0, 0, 0, 0, 0,
        ],
        command_field(Command::Object) == seq![
            0x6fu8, 0x62, 0x6a, 0x65, 0x63, 0x74, 0, 0, 0, 0, 0, 0,
        ],
{
    reveal_strlit("version");
    reveal_strlit("verack");
    reveal_strlit("addr");
    reveal_strlit("inv");
    reveal_strlit("getdata");
    reveal_strlit("object");
    assert(command_field(Command::Version) =~= seq![
        0x76u8, 0x65, 0x72, 0x73, 0x69, 0x6f, 0x6e, 0, 0, 0, 0, 0,
    ]);
    assert(command_field(Command::Verack) =~= seq![
        0x76u8, 0x65, 0x72, 0x61, 0x63, 0x6b, 0, 0, 0, 0, 0, 0,
    ]);
    assert(command_field(Command::Addr) =~= seq![
        0x61u8, 0x64, 0x64, 0x72, 0, 0, 0, 0, 0, 0, 0, 0,
    ]);
    assert(command_field(Command::Inv) =~= seq![0x69u8, 0x6e, 0x76, 0, 0, 0, 0, 0, 0, 0, 0, 0]);
    assert(command_field(Command::GetData) =~= seq![
        0x67u8, 0x65, 0x74, 0x64, 0x61, 0x74, 0x61, 0, 0, 0, 0, 0,
    ]);
    assert(command_field(Command::Object) =~= seq![
        0x6fu8, 0x62, 0x6a, 0x65, 0x63, 0x74, 0, 0, 0, 0, 0, 0,
    ]);
}

/// The name of a command in a header is 12 bytes long and stands for that
/// command alone.
pub proof fn lemma_command_round_trip(command: Command)
    ensures
        command_field(command).len() == 12,
        command_of_field(command_field(command)) == Some(command),
{
    lemma_command_fields();
    let version = command_field(Command::Version);
    let verack = command_field(Command::Verack);
    let addr = command_field(Command::Addr);
    let inv = command_field(Command::Inv);
    let getdata = command_field(Command::GetData);
    let object = command_field(Command::Object);
    assert(version[3] == 0x73 && verack[3] == 0x61);
    assert(version[0] == 0x76 && verack[0] == 0x76);
    assert(addr[0] == 0x61 && inv[0] == 0x69 && getdata[0] == 0x67 && object[0] == 0x6f);
}

/// The 12 bytes of the name of `command`.
pub fn command_bytes(command: Command) -> (field: [u8; 12])
    ensures
        field@ == command_field(command),
{
    proof {
        lemma_command_fields();
    }
    let field: [u8; 12] = match command {
        Command::Version => [0x76, 0x65, 0x72, 0x73, 0x69, 0x6f, 0x6e, 0, 0, 0, 0, 0],
        Command::Verack => [0x76, 0x65, 0x72, 0x61, 0x63, 0x6b, 0, 0, 0, 0, 0, 0],
        Command::Addr => [0x61, 0x64, 0x64, 0x72, 0, 0, 0, 0, 0, 0, 0, 0],
        Command::Inv => [0x69, 0x6e, 0x76, 0, 0, 0, 0, 0, 0, 0, 0, 0],
        Command::GetData => [0x67, 0x65, 0x74, 0x64, 0x61, 0x74, 0x61, 0, 0, 0, 0, 0],
        Command::Object => [0x6f, 0x62, 0x6a, 0x65, 0x63, 0x74, 0, 0, 0, 0, 0, 0],
    };
    assert(field@ =~= command_field(command));
    field
}

/// Whether two byte strings hold the same bytes.
pub fn same_bytes(a: &[u8], b: &[u8]) -> (same: bool)
    ensures
        same == (a@ == b@),
{
    if a.len() != b.len() {
        return false;
    }
    let mut i: usize = 0;
    while i < a.len()
        invariant
            i <= a@.len(),
            a@.len() == b@.len(),
            forall|k: int| 0 <= k < i ==> a@[k] == b@[k],
        decreases a@.len() - i,
    {
        if a[i] != b[i] {
            return false;
        }
        i = i + 1;
    }
    assert(a@ =~= b@);
    true
}

/// The command that the bytes of a command name stand for.
pub fn parse_command(field: &[u8]) -> (command: Option<Command>)
    ensures
        command == command_of_field(field@),
{
    if same_bytes(field, command_bytes(Command::Version).as_slice()) {
        Some(Command::Version)
    } else if same_bytes(field, command_bytes(Command::Verack).as_slice()) {
        Some(Command::Verack)
    } else if same_bytes(field, command_bytes(Command::Addr).as_slice()) {
        Some(Command::Addr)
    } else if same_bytes(field, command_bytes(Command::Inv).as_slice()) {
        Some(Command::Inv)
    } else if same_bytes(field, command_bytes(Command::GetData).as_slice()) {
        Some(Command::GetData)
    } else if same_bytes(field, command_bytes(Command::Object).as_slice()) {
        Some(Command::Object)
    } else {
        None
    }
}

/// What the header of a frame says of its payload.
#[derive(Clone, Copy, Debug, PartialEq, Eq)]
pub struct FrameHeader {
    /// The command that says what the payload is.
    pub command: Command,
    /// The length of the payload in bytes.
    pub length: u32,
    /// The checksum that the payload is to have.
    pub checksum: [u8; 4],
}

/// The header of a frame with the given command around `payload`.
pub open spec fn header_bytes(command: Command, payload: Seq<u8>) -> Seq<u8> {
    u32_be(MAGIC) + command_field(command) + u32_be(payload.len() as u32) + checksum_of(payload)
}

/// A frame with the given command around `payload`.
pub open spec fn frame_bytes(command: Command, payload: Seq<u8>) -> Seq<u8> {
    header_bytes(command, payload) + payload
}

/// Decodes the 24 bytes of a header, given as the command, the length and
/// the checksum in it. A header is refused for a wrong magic number, then
/// for an unknown command, then for a length over the limit of its command.
pub open spec fn parse_header(s: Seq<u8>) -> Result<(Command, u32, Seq<u8>), ParseError> {
    if s.len() < HEADER_LENGTH {
        Err(ParseError::ShortRead)
    } else if u32_from_be(s) != MAGIC {
        Err(ParseError::BadMagic)
    } else {
        match command_of_field(s.subrange(4, 16)) {
            None => Err(ParseError::UnknownCommand),
            Some(command) => if u32_from_be(s.skip(16)) > command.payload_limit() {
                Err(ParseError::PayloadTooBig)
            } else {
                Ok((command, u32_from_be(s.skip(16)), s.subrange(20, 24)))
            },
        }
    }
}

/// Cuts the first frame off `s`: its command, its payload and what follows
/// it. After its header, a frame is refused where its payload is not all
/// there, then for a checksum that is not that of the payload.
pub open spec fn parse_frame(s: Seq<u8>) -> Parsed<(Command, Seq<u8>)> {
    match parse_header(s) {
        Err(e) => Err(e),
        Ok((command, length, sum)) => if s.len() - HEADER_LENGTH < length {
            Err(ParseError::ShortRead)
        } else if checksum_of(s.subrange(24, 24 + length)) != sum {
            Err(ParseError::BadChecksum)
        } else {
            Ok(((command, s.subrange(24, 24 + length)), s.skip(24 + length)))
        },
    }
}

/// The pieces of a frame are found at their places in it: the header is 24
/// bytes long, and cutting the frame off what follows gives back the command
/// and the payload, where the payload is within the limit of the command.
pub proof fn lemma_frame_round_trip(command: Command, payload: Seq<u8>, rest: Seq<u8>)
    requires
        payload.len() <= command.payload_limit(),
    ensures
        header_bytes(command, payload).len() == 24,
        parse_frame(frame_bytes(command, payload) + rest) == Ok::<
            ((Command, Seq<u8>), Seq<u8>),
            ParseError,
        >(((command, payload), rest)),
{
    let s = frame_bytes(command, payload) + rest;
    let length = payload.len() as u32;
    let sum = checksum_of(payload);
    let after_magic = command_field(command) + u32_be(length) + sum + payload + rest;
    let after_length = sum + payload + rest;
    lemma_u32_round_trip(MAGIC, after_magic);
    lemma_command_round_trip(command);
    lemma_u32_round_trip(length, after_length);
    assert(s =~= u32_be(MAGIC) + after_magic);
    assert(s.subrange(4, 16) =~= command_field(command));
    assert(s.skip(16) =~= u32_be(length) + after_length);
    assert(s.subrange(20, 24) =~= sum);
    assert(s.subrange(24, 24 + length) =~= payload);
    assert(s.skip(24 + length) =~= rest);
}

/// Decodes the 24 bytes of a header.
pub fn read_header(header: &[u8]) -> (r: Result<FrameHeader, ParseError>)
    ensures
        match parse_header(header@) {
            Ok((command, length, sum)) => r matches Ok(h) && h.command == command && h.length
                == length && h.checksum@ == sum,
            Err(e) => r == Err::<FrameHeader, ParseError>(e),
        },
{
    let mut cursor = Cursor::new(header);
    if cursor.remaining_len() < HEADER_LENGTH {
        return Err(ParseError::ShortRead);
    }
    let magic = cursor.read_u32()?;
    if magic != MAGIC {
        return Err(ParseError::BadMagic);
    }
    let field = cursor.peek(COMMAND_LENGTH);
    assert(field@ =~= header@.subrange(4, 16));
    cursor.advance(COMMAND_LENGTH);
    let command = match parse_command(field) {
        Some(command) => command,
        None => {
            return Err(ParseError::UnknownCommand);
        },
    };
    assert(cursor.remaining() =~= header@.skip(16));
    let length = cursor.read_u32()?;
    if length > command.max_payload_length() {
        return Err(ParseError::PayloadTooBig);
    }
    let sum = cursor.peek(4);
    assert(sum@ =~= header@.subrange(20, 24));
    let checksum: [u8; 4] = [sum[0], sum[1], sum[2], sum[3]];
    assert(checksum@ =~= sum@);
    Ok(FrameHeader { command, length, checksum })
}

/// Whether `payload` is the payload that `header` announces: it has the
/// announced length and checksum.
pub fn check_payload(header: &FrameHeader, payload: &[u8]) -> (r: Result<(), ParseError>)
    ensures
        r == if payload@.len() != header.length {
            Err::<(), ParseError>(ParseError::ShortRead)
        } else if checksum_of(payload@) != header.checksum@ {
            Err::<(), ParseError>(ParseError::BadChecksum)
        } else {
            Ok::<(), ParseError>(())
        },
{
    if payload.len() != header.length as usize {
        return Err(ParseError::ShortRead);
    }
    let sum = checksum(payload);
    if same_bytes(sum.as_slice(), header.checksum.as_slice()) {
        Ok(())
    } else {
        Err(ParseError::BadChecksum)
    }
}

/// Appends a frame with the given command around `payload`, or fails with
/// `PayloadTooBig` and appends nothing where the payload is over the limit
/// of the command.
pub fn write_frame(out: &mut Vec<u8>, command: Command, payload: &[u8]) -> (r: Result<
    (),
    ParseError,
>)
    ensures
        payload@.len() <= command.payload_limit() ==> r is Ok && final(out)@ == old(out)@
            + frame_bytes(command, payload@),
        payload@.len() > command.payload_limit() ==> r == Err::<(), ParseError>(
            ParseError::PayloadTooBig,
        ) && final(out)@ == old(out)@,
{
    if payload.len() > command.max_payload_length() as usize {
        return Err(ParseError::PayloadTooBig);
    }
    be_write_u32(out, MAGIC);
    let field = command_bytes(command);
    out.extend_from_slice(field.as_slice());
    be_write_u32(out, payload.len() as u32);
    let sum = checksum(payload);
    out.extend_from_slice(sum.as_slice());
    out.extend_from_slice(payload);
    assert(out@ =~= old(out)@ + frame_bytes(command, payload@));
    Ok(())
}

} // verus!
