//! Variable-length integers: one byte below `0xfd`, else a tag byte and the
//! number in two, four or eight bytes.

use vstd::prelude::*;
use crate::message::ParseError;
use crate::message::wire::{
    Cursor, Parsed, be_write_u16, be_write_u32, be_write_u64, lemma_u16_round_trip,
    lemma_u32_round_trip, lemma_u64_round_trip, read_gives, u16_be, u16_from_be, u32_be,
    u32_from_be, u64_be, u64_from_be,
};

verus! {

/// The shortest encoding of `n`.
pub open spec fn var_int(n: u64) -> Seq<u8> {
    if n < 0xfd {
        seq![n as u8]
    } else if n <= 0xffff {
        seq![0xfdu8] + u16_be(n as u16)
    } else if n <= 0xffff_ffff {
        seq![0xfeu8] + u32_be(n as u32)
    } else {
        seq![0xffu8] + u64_be(n)
    }
}

/// How many bytes follow the tag byte `tag`.
pub open spec fn var_int_width(tag: u8) -> nat {
    if tag < 0xfd {
        0
    } else if tag == 0xfd {
        2
    } else if tag == 0xfe {
        4
    } else {
        8
    }
}

/// The number that the tag byte `tag` and the bytes `body` after it stand for.
pub open spec fn var_int_value(tag: u8, body: Seq<u8>) -> u64 {
    if tag < 0xfd {
        tag as u64
    } else if tag == 0xfd {
        u16_from_be(body) as u64
    } else if tag == 0xfe {
        u32_from_be(body) as u64
    } else {
        u64_from_be(body)
    }
}

/// Decodes a variable-length integer that may be `max` at most. Longer
/// forms than necessary are read as the number they hold.
pub open spec fn parse_var_int(s: Seq<u8>, max: u64) -> Parsed<u64> {
    if s.len() < 1 {
        Err(ParseError::ShortRead)
    } else if s.len() - 1 < var_int_width(s[0]) {
        Err(ParseError::ShortRead)
    } else if var_int_value(s[0], s.skip(1)) > max {
        Err(ParseError::VarIntTooLarge)
    } else {
        Ok((var_int_value(s[0], s.skip(1)), s.skip(1 + var_int_width(s[0]) as int)))
    }
}

/// Decoding the encoding of `n` gives `n` and the bytes that followed, for
/// every limit that admits `n`.
pub proof fn lemma_var_int_round_trip(n: u64, max: u64, rest: Seq<u8>)
    requires
        n <= max,
    ensures
        parse_var_int(var_int(n) + rest, max) == Ok::<(u64, Seq<u8>), ParseError>((n, rest)),
{
    let s = var_int(n) + rest;
    if n < 0xfd {
        assert(s.skip(1) =~= rest);
    } else if n <= 0xffff {
        lemma_u16_round_trip(n as u16, rest);
        assert(s.skip(1) =~= u16_be(n as u16) + rest);
        assert(s.skip(3) =~= rest);
    } else if n <= 0xffff_ffff {
        lemma_u32_round_trip(n as u32, rest);
        assert(s.skip(1) =~= u32_be(n as u32) + rest);
        assert(s.skip(5) =~= rest);
    } else {
        lemma_u64_round_trip(n, rest);
        assert(s.skip(1) =~= u64_be(n) + rest);
        assert(s.skip(9) =~= rest);
    }
}

/// A limit below `n` makes the decoder refuse the encoding of `n`.
pub proof fn lemma_var_int_over_limit(n: u64, max: u64, rest: Seq<u8>)
    requires
        n > max,
    ensures
        parse_var_int(var_int(n) + rest, max) == Err::<(u64, Seq<u8>), ParseError>(
            ParseError::VarIntTooLarge,
        ),
{
    lemma_var_int_round_trip(n, n, rest);
}

/// The encoding is the shortest: whatever bytes decode to `n`, the decoder
/// took at least as many of them as the encoding of `n` has.
pub proof fn lemma_var_int_shortest(s: Seq<u8>, max: u64)
    requires
        parse_var_int(s, max) is Ok,
    ensures
        var_int(parse_var_int(s, max).unwrap().0).len() <= s.len() - parse_var_int(
            s,
            max,
        ).unwrap().1.len(),
        var_int(parse_var_int(s, max).unwrap().0).len() <= 9,
{
    let n = parse_var_int(s, max).unwrap().0;
    let none = Seq::<u8>::empty();
    lemma_u16_round_trip(n as u16, none);
    lemma_u32_round_trip(n as u32, none);
    lemma_u64_round_trip(n, none);
}

/// Appends the encoding of `n`.
pub fn write_var_int_64(out: &mut Vec<u8>, n: u64)
    ensures
        final(out)@ == old(out)@ + var_int(n),
{
    if n < 0xfd {
        out.push(n as u8);
        assert(out@ =~= old(out)@ + var_int(n));
    } else if n <= 0xffff {
        out.push(0xfd);
        be_write_u16(out, n as u16);
        assert(out@ =~= old(out)@ + var_int(n));
    } else if n <= 0xffff_ffff {
        out.push(0xfe);
        be_write_u32(out, n as u32);
        assert(out@ =~= old(out)@ + var_int(n));
    } else {
        out.push(0xff);
        be_write_u64(out, n);
        assert(out@ =~= old(out)@ + var_int(n));
    }
}

/// Appends the encoding of a number of at most 16 bits.
pub fn write_var_int_16(out: &mut Vec<u8>, n: u16)
    ensures
        final(out)@ == old(out)@ + var_int(n as u64),
{
    write_var_int_64(out, n as u64)
}

/// Reads a variable-length integer that may be `max` at most.
pub fn read_var_int(cursor: &mut Cursor, max: u64) -> (r: Result<u64, ParseError>)
    ensures
        read_gives(parse_var_int(old(cursor).remaining(), max), r, final(cursor).remaining()),
        final(cursor).source() == old(cursor).source(),
{
    let ghost start = cursor.remaining();
    let tag = cursor.read_u8()?;
    let value = if tag < 0xfd {
        tag as u64
    } else if tag == 0xfd {
        cursor.read_u16()? as u64
    } else if tag == 0xfe {
        cursor.read_u32()? as u64
    } else {
        cursor.read_u64()?
    };
    assert(cursor.remaining() =~= start.skip(1 + var_int_width(tag) as int));
    if value > max {
        Err(ParseError::VarIntTooLarge)
    } else {
        Ok(value)
    }
}

/// Reads a variable-length integer that counts something held in memory and
/// may be `max` at most.
pub fn read_var_int_usize(cursor: &mut Cursor, max: usize) -> (r: Result<usize, ParseError>)
    ensures
        match parse_var_int(old(cursor).remaining(), max as u64) {
            Ok((n, rest)) => r == Ok::<usize, ParseError>(n as usize) && n <= max
                && final(cursor).remaining() == rest,
            Err(e) => r == Err::<usize, ParseError>(e),
        },
        final(cursor).source() == old(cursor).source(),
{
    let n = read_var_int(cursor, max as u64)?;
    Ok(n as usize)
}

} // verus!
