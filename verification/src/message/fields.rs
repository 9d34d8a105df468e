//! The fields that message bodies are made of: timestamps, endpoints and
//! strings.

use vstd::prelude::*;
use vstd::utf8::is_ascii_chars;
use encoding::{DecoderTrap, EncoderTrap, Encoding};
use encoding::all::ASCII;
use crate::clock::Timespec;
use crate::message::ParseError;
use crate::message::var_int::{
    lemma_var_int_round_trip, parse_var_int, read_var_int_usize, var_int, write_var_int_64,
};
use crate::message::wire::{
    Cursor, Parsed, be_write_i64, be_write_u16, be_write_u64, i64_be, i64_from_be,
    lemma_i64_round_trip, lemma_u128_round_trip, lemma_u16_round_trip, read_gives, u128_be,
    u128_from_be, u16_be, u16_from_be, };
use crate::net::Endpoint;

verus! {

/// A timestamp on the wire: its seconds as a big-endian `i64`. The
/// nanoseconds are not sent.
pub open spec fn timestamp_bytes(t: Timespec) -> Seq<u8> {
    i64_be(t.sec)
}

/// Decodes a timestamp: whole seconds since the epoch.
pub open spec fn parse_timestamp(s: Seq<u8>) -> Parsed<Timespec> {
    if s.len() < 8 {
        Err(ParseError::ShortRead)
    } else {
        Ok((Timespec { sec: i64_from_be(s), nsec: 0 }, s.skip(8)))
    }
}

/// An endpoint on the wire: the sixteen bytes of its address, then its port
/// as a big-endian `u16`.
pub open spec fn endpoint_bytes(e: Endpoint) -> Seq<u8> {
    u128_be(e.address) + u16_be(e.port)
}

/// Decodes an endpoint.
pub open spec fn parse_endpoint(s: Seq<u8>) -> Parsed<Endpoint> {
    if s.len() < 18 {
        Err(ParseError::ShortRead)
    } else {
        Ok((Endpoint { address: u128_from_be(s), port: u16_from_be(s.skip(16)) }, s.skip(18)))
    }
}

/// The bytes of an ASCII text, one for each character.
pub open spec fn ascii_bytes(text: Seq<char>) -> Seq<u8> {
    Seq::new(text.len(), |i: int| text[i] as u8)
}

/// Whether every byte is below `0x80`.
pub open spec fn is_ascii_bytes(bytes: Seq<u8>) -> bool {
    forall|i: int| 0 <= i < bytes.len() ==> #[trigger] bytes[i] < 0x80
}

/// The text that ASCII bytes stand for, one character for each byte.
pub open spec fn ascii_text(bytes: Seq<u8>) -> Seq<char> {
    Seq::new(bytes.len(), |i: int| bytes[i] as char)
}

/// A string on the wire: its length as a variable-length integer, then its
/// bytes.
pub open spec fn var_str(text: Seq<char>) -> Seq<u8> {
    var_int(text.len() as u64) + ascii_bytes(text)
}

/// Decodes an ASCII string of at most `max` bytes.
pub open spec fn parse_var_str(s: Seq<u8>, max: usize) -> Parsed<Seq<char>> {
    match parse_var_int(s, max as u64) {
        Err(e) => Err(e),
        Ok((n, rest)) => if rest.len() < n {
            Err(ParseError::ShortRead)
        } else if !is_ascii_bytes(rest.take(n as int)) {
            Err(ParseError::BadString)
        } else {
            Ok((ascii_text(rest.take(n as int)), rest.skip(n as int)))
        },
    }
}

/// Decoding the bytes of a timestamp of whole seconds gives the timestamp.
pub proof fn lemma_timestamp_round_trip(t: Timespec, rest: Seq<u8>)
    requires
        t.nsec == 0,
    ensures
        parse_timestamp(timestamp_bytes(t) + rest) == Ok::<(Timespec, Seq<u8>), ParseError>(
            (t, rest),
        ),
{
    lemma_i64_round_trip(t.sec, rest);
    assert((timestamp_bytes(t) + rest).skip(8) =~= rest);
}

/// Decoding the bytes of an endpoint gives the endpoint.
pub proof fn lemma_endpoint_round_trip(e: Endpoint, rest: Seq<u8>)
    ensures
        endpoint_bytes(e).len() == 18,
        parse_endpoint(endpoint_bytes(e) + rest) == Ok::<(Endpoint, Seq<u8>), ParseError>(
            (e, rest),
        ),
{
    let all = endpoint_bytes(e) + rest;
    lemma_u128_round_trip(e.address, u16_be(e.port) + rest);
    lemma_u16_round_trip(e.port, rest);
    assert(all =~= u128_be(e.address) + (u16_be(e.port) + rest));
    assert(all.skip(16) =~= u16_be(e.port) + rest);
    assert(all.skip(18) =~= rest);
}

/// Decoding the bytes of an ASCII text no longer than the limit gives the
/// text.
pub proof fn lemma_var_str_round_trip(text: Seq<char>, max: usize, rest: Seq<u8>)
    requires
        is_ascii_chars(text),
        text.len() <= max,
    ensures
        parse_var_str(var_str(text) + rest, max) == Ok::<(Seq<char>, Seq<u8>), ParseError>(
            (text, rest),
        ),
{
    let n = text.len() as u64;
    let all = var_str(text) + rest;
    lemma_var_int_round_trip(n, max as u64, ascii_bytes(text) + rest);
    assert(all =~= var_int(n) + (ascii_bytes(text) + rest));
    let after = ascii_bytes(text) + rest;
    assert(after.take(n as int) =~= ascii_bytes(text));
    assert(after.skip(n as int) =~= rest);
    assert(ascii_text(ascii_bytes(text)) =~= text);
}

/// `encoding::Encoding::encode` of `encoding::all::ASCII` with
/// `EncoderTrap::Strict`: one byte for each character where every character
/// is below U+0080, and an error otherwise.
#[verifier::external_body]
fn ascii_encode(text: &str) -> (r: Option<Vec<u8>>)
    ensures
        r is Some <==> is_ascii_chars(text@),
        r matches Some(bytes) ==> bytes@ == ascii_bytes(text@),
{
    match ASCII.encode(text, EncoderTrap::Strict) {
        Ok(bytes) => Some(bytes),
        Err(_) => None,
    }
}

/// `encoding::Encoding::decode` of `encoding::all::ASCII` with
/// `DecoderTrap::Strict`: one character for each byte where every byte is
/// below `0x80`, and an error otherwise.
#[verifier::external_body]
fn ascii_decode(bytes: &[u8]) -> (r: Option<String>)
    ensures
        r is Some <==> is_ascii_bytes(bytes@),
        r matches Some(text) ==> text@ == ascii_text(bytes@),
{
    match ASCII.decode(bytes, DecoderTrap::Strict) {
        Ok(text) => Some(text),
        Err(_) => None,
    }
}

/// Appends a timestamp.
pub fn write_timestamp(out: &mut Vec<u8>, t: Timespec)
    ensures
        final(out)@ == old(out)@ + timestamp_bytes(t),
{
    be_write_i64(out, t.sec)
}

/// Reads a timestamp.
pub fn read_timestamp(cursor: &mut Cursor) -> (r: Result<Timespec, ParseError>)
    ensures
        read_gives(parse_timestamp(old(cursor).remaining()), r, final(cursor).remaining()),
        final(cursor).source() == old(cursor).source(),
{
    let sec = cursor.read_i64()?;
    Ok(Timespec { sec, nsec: 0 })
}

/// Appends an endpoint.
pub fn write_address_and_port(out: &mut Vec<u8>, e: &Endpoint)
    ensures
        final(out)@ == old(out)@ + endpoint_bytes(*e),
{
    be_write_u64(out, (e.address / 0x1_0000_0000_0000_0000) as u64);
    be_write_u64(out, (e.address % 0x1_0000_0000_0000_0000) as u64);
    be_write_u16(out, e.port);
    proof {
        reveal(u128_be);
    }
    assert(out@ =~= old(out)@ + endpoint_bytes(*e));
}

/// Reads an endpoint.
pub fn read_address_and_port(cursor: &mut Cursor) -> (r: Result<Endpoint, ParseError>)
    ensures
        read_gives(parse_endpoint(old(cursor).remaining()), r, final(cursor).remaining()),
        final(cursor).source() == old(cursor).source(),
{
    let ghost start = cursor.remaining();
    if cursor.remaining_len() < 18 {
        return Err(ParseError::ShortRead);
    }
    let high = cursor.read_u64()?;
    let low = cursor.read_u64()?;
    let port = cursor.read_u16()?;
    proof {
        reveal(u128_from_be);
        assert(start.skip(8).skip(8) =~= start.skip(16));
        assert(cursor.remaining() =~= start.skip(18));
    }
    let address: u128 = high as u128 * 0x1_0000_0000_0000_0000 + low as u128;
    Ok(Endpoint { address, port })
}

/// Appends an ASCII string.
pub fn write_var_str(out: &mut Vec<u8>, text: &str)
    requires
        is_ascii_chars(text@),
    ensures
        final(out)@ == old(out)@ + var_str(text@),
{
    if let Some(bytes) = ascii_encode(text) {
        write_var_int_64(out, bytes.len() as u64);
        let mut bytes = bytes;
        out.append(&mut bytes);
        assert(out@ =~= old(out)@ + var_str(text@));
    }
}

/// Reads an ASCII string of at most `max` bytes.
pub fn read_var_str(cursor: &mut Cursor, max: usize) -> (r: Result<String, ParseError>)
    ensures
        match parse_var_str(old(cursor).remaining(), max) {
            Ok((text, rest)) => r matches Ok(t) && t@ == text && final(cursor).remaining()
                == rest,
            Err(e) => r == Err::<String, ParseError>(e),
        },
        final(cursor).source() == old(cursor).source(),
{
    let n = read_var_int_usize(cursor, max)?;
    let bytes = cursor.read_bytes(n)?;
    match ascii_decode(bytes.as_slice()) {
        Some(text) => Ok(text),
        None => Err(ParseError::BadString),
    }
}

} // verus!
