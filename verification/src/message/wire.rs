//! Wire primitives: big-endian integers and the cursor that decoders read
//! from.

use vstd::prelude::*;
use byteorder::{BigEndian, ByteOrder, WriteBytesExt};
use crate::message::ParseError;

verus! {

/// The two bytes of `n`, most significant first.
#[verifier::opaque]
pub open spec fn u16_be(n: u16) -> Seq<u8> {
    seq![(n / 0x100) as u8, (n % 0x100) as u8]
}

/// The four bytes of `n`, most significant first.
#[verifier::opaque]
pub open spec fn u32_be(n: u32) -> Seq<u8> {
    seq![
        (n / 0x100_0000) as u8,
        (n / 0x1_0000 % 0x100) as u8,
        (n / 0x100 % 0x100) as u8,
        (n % 0x100) as u8,
    ]
}

/// The eight bytes of `n`, most significant first: those of its upper half,
/// then those of its lower half.
#[verifier::opaque]
pub open spec fn u64_be(n: u64) -> Seq<u8> {
    u32_be((n / 0x1_0000_0000) as u32) + u32_be((n % 0x1_0000_0000) as u32)
}

/// The number whose big-endian bytes are the first two of `s`.
#[verifier::opaque]
pub open spec fn u16_from_be(s: Seq<u8>) -> u16
    recommends
        s.len() >= 2,
{
    (s[0] * 0x100 + s[1]) as u16
}

/// The number whose big-endian bytes are the first four of `s`.
#[verifier::opaque]
pub open spec fn u32_from_be(s: Seq<u8>) -> u32
    recommends
        s.len() >= 4,
{
    (s[0] * 0x100_0000 + s[1] * 0x1_0000 + s[2] * 0x100 + s[3]) as u32
}

/// The number whose big-endian bytes are the first eight of `s`.
#[verifier::opaque]
pub open spec fn u64_from_be(s: Seq<u8>) -> u64
    recommends
        s.len() >= 8,
{
    (u32_from_be(s) * 0x1_0000_0000 + u32_from_be(s.skip(4))) as u64
}

/// The sixteen bytes of `n`, most significant first: those of its upper
/// half, then those of its lower half.
#[verifier::opaque]
pub open spec fn u128_be(n: u128) -> Seq<u8> {
    u64_be((n / 0x1_0000_0000_0000_0000) as u64) + u64_be((n % 0x1_0000_0000_0000_0000) as u64)
}

/// The number whose big-endian bytes are the first sixteen of `s`.
#[verifier::opaque]
pub open spec fn u128_from_be(s: Seq<u8>) -> u128
    recommends
        s.len() >= 16,
{
    (u64_from_be(s) * 0x1_0000_0000_0000_0000 + u64_from_be(s.skip(8))) as u128
}

/// The unsigned number with the same 64 bits as `n`.
pub open spec fn i64_bits(n: i64) -> u64 {
    if n < 0 {
        (n + 0x1_0000_0000_0000_0000) as u64
    } else {
        n as u64
    }
}

/// The signed number with the same 64 bits as `n`.
pub open spec fn i64_from_bits(n: u64) -> i64 {
    if n >= 0x8000_0000_0000_0000 {
        (n - 0x1_0000_0000_0000_0000) as i64
    } else {
        n as i64
    }
}

/// The eight bytes of `n` in two's complement, most significant first.
pub open spec fn i64_be(n: i64) -> Seq<u8> {
    u64_be(i64_bits(n))
}

/// The signed number whose big-endian two's complement is the first eight
/// bytes of `s`.
pub open spec fn i64_from_be(s: Seq<u8>) -> i64
    recommends
        s.len() >= 8,
{
    i64_from_bits(u64_from_be(s))
}

/// Reading back the bytes of a `u16` gives the number, whatever follows.
pub proof fn lemma_u16_round_trip(n: u16, rest: Seq<u8>)
    ensures
        u16_be(n).len() == 2,
        u16_from_be(u16_be(n) + rest) == n,
{
    reveal(u16_be);
    reveal(u16_from_be);
}

/// Reading back the bytes of a `u32` gives the number, whatever follows.
pub proof fn lemma_u32_round_trip(n: u32, rest: Seq<u8>)
    ensures
        u32_be(n).len() == 4,
        u32_from_be(u32_be(n) + rest) == n,
{
    reveal(u32_be);
    reveal(u32_from_be);
}

/// Reading back the bytes of a `u64` gives the number, whatever follows.
pub proof fn lemma_u64_round_trip(n: u64, rest: Seq<u8>)
    ensures
        u64_be(n).len() == 8,
        u64_from_be(u64_be(n) + rest) == n,
{
    reveal(u64_be);
    reveal(u64_from_be);
    let high = (n / 0x1_0000_0000) as u32;
    let low = (n % 0x1_0000_0000) as u32;
    let all = u64_be(n) + rest;
    lemma_u32_round_trip(high, u32_be(low) + rest);
    lemma_u32_round_trip(low, rest);
    assert(all =~= u32_be(high) + (u32_be(low) + rest));
    assert(all.skip(4) =~= u32_be(low) + rest);
}

/// Reading back the bytes of a `u128` gives the number, whatever follows.
pub proof fn lemma_u128_round_trip(n: u128, rest: Seq<u8>)
    ensures
        u128_be(n).len() == 16,
        u128_from_be(u128_be(n) + rest) == n,
{
    reveal(u128_be);
    reveal(u128_from_be);
    let high = (n / 0x1_0000_0000_0000_0000) as u64;
    let low = (n % 0x1_0000_0000_0000_0000) as u64;
    let all = u128_be(n) + rest;
    lemma_u64_round_trip(high, u64_be(low) + rest);
    lemma_u64_round_trip(low, rest);
    assert(all =~= u64_be(high) + (u64_be(low) + rest));
    assert(all.skip(8) =~= u64_be(low) + rest);
}

/// Reading back the bytes of an `i64` gives the number, whatever follows.
pub proof fn lemma_i64_round_trip(n: i64, rest: Seq<u8>)
    ensures
        i64_be(n).len() == 8,
        i64_from_be(i64_be(n) + rest) == n,
{
    lemma_u64_round_trip(i64_bits(n), rest);
}

/// A `u16` is read from the first two bytes alone.
pub proof fn lemma_u16_from_prefix(a: Seq<u8>, b: Seq<u8>)
    requires
        a.len() >= 2,
        b.len() >= 2,
        a.take(2) == b.take(2),
    ensures
        u16_from_be(a) == u16_from_be(b),
{
    reveal(u16_from_be);
    assert(a[0] == a.take(2)[0] && a[1] == a.take(2)[1]);
    assert(b[0] == b.take(2)[0] && b[1] == b.take(2)[1]);
}

/// A `u32` is read from the first four bytes alone.
pub proof fn lemma_u32_from_prefix(a: Seq<u8>, b: Seq<u8>)
    requires
        a.len() >= 4,
        b.len() >= 4,
        a.take(4) == b.take(4),
    ensures
        u32_from_be(a) == u32_from_be(b),
{
    reveal(u32_from_be);
    assert forall|i: int| 0 <= i < 4 implies a[i] == b[i] by {
        assert(a[i] == a.take(4)[i]);
        assert(b[i] == b.take(4)[i]);
    }
}

/// A `u64` is read from the first eight bytes alone.
pub proof fn lemma_u64_from_prefix(a: Seq<u8>, b: Seq<u8>)
    requires
        a.len() >= 8,
        b.len() >= 8,
        a.take(8) == b.take(8),
    ensures
        u64_from_be(a) == u64_from_be(b),
        i64_from_be(a) == i64_from_be(b),
{
    reveal(u64_from_be);
    assert(a.take(4) =~= a.take(8).take(4));
    assert(b.take(4) =~= b.take(8).take(4));
    assert(a.skip(4).take(4) =~= a.take(8).skip(4));
    assert(b.skip(4).take(4) =~= b.take(8).skip(4));
    lemma_u32_from_prefix(a, b);
    lemma_u32_from_prefix(a.skip(4), b.skip(4));
}

/// A `u128` is read from the first sixteen bytes alone.
pub proof fn lemma_u128_from_prefix(a: Seq<u8>, b: Seq<u8>)
    requires
        a.len() >= 16,
        b.len() >= 16,
        a.take(16) == b.take(16),
    ensures
        u128_from_be(a) == u128_from_be(b),
{
    reveal(u128_from_be);
    assert(a.take(8) =~= a.take(16).take(8));
    assert(b.take(8) =~= b.take(16).take(8));
    assert(a.skip(8).take(8) =~= a.take(16).skip(8));
    assert(b.skip(8).take(8) =~= b.take(16).skip(8));
    lemma_u64_from_prefix(a, b);
    lemma_u64_from_prefix(a.skip(8), b.skip(8));
}

/// `byteorder::ByteOrder::read_u16` of `BigEndian`: the number in the first
/// two bytes of `buf`. It panics on a shorter slice.
#[verifier::external_body]
fn be_read_u16(buf: &[u8]) -> (n: u16)
    requires
        buf@.len() >= 2,
    ensures
        n == u16_from_be(buf@),
{
    BigEndian::read_u16(buf)
}

/// `byteorder::ByteOrder::read_u32` of `BigEndian`: the number in the first
/// four bytes of `buf`. It panics on a shorter slice.
#[verifier::external_body]
fn be_read_u32(buf: &[u8]) -> (n: u32)
    requires
        buf@.len() >= 4,
    ensures
        n == u32_from_be(buf@),
{
    BigEndian::read_u32(buf)
}

/// `byteorder::ByteOrder::read_u64` of `BigEndian`: the number in the first
/// eight bytes of `buf`. It panics on a shorter slice.
#[verifier::external_body]
pub(crate) fn be_read_u64(buf: &[u8]) -> (n: u64)
    requires
        buf@.len() >= 8,
    ensures
        n == u64_from_be(buf@),
{
    BigEndian::read_u64(buf)
}

/// `byteorder::ByteOrder::read_i64` of `BigEndian`: the first eight bytes of
/// `buf` read as a `u64` and reinterpreted as signed. It panics on a shorter
/// slice.
#[verifier::external_body]
fn be_read_i64(buf: &[u8]) -> (n: i64)
    requires
        buf@.len() >= 8,
    ensures
        n == i64_from_be(buf@),
{
    BigEndian::read_i64(buf)
}

/// `byteorder::WriteBytesExt::write_u16` with `BigEndian`, on a vector: the
/// two bytes of `n` are appended. Writing to a vector does not fail.
#[verifier::external_body]
pub(crate) fn be_write_u16(out: &mut Vec<u8>, n: u16)
    ensures
        final(out)@ == old(out)@ + u16_be(n),
{
    let _ = out.write_u16::<BigEndian>(n);
}

/// `byteorder::WriteBytesExt::write_u32` with `BigEndian`, on a vector: the
/// four bytes of `n` are appended. Writing to a vector does not fail.
#[verifier::external_body]
pub(crate) fn be_write_u32(out: &mut Vec<u8>, n: u32)
    ensures
        final(out)@ == old(out)@ + u32_be(n),
{
    let _ = out.write_u32::<BigEndian>(n);
}

/// `byteorder::WriteBytesExt::write_u64` with `BigEndian`, on a vector: the
/// eight bytes of `n` are appended. Writing to a vector does not fail.
#[verifier::external_body]
pub(crate) fn be_write_u64(out: &mut Vec<u8>, n: u64)
    ensures
        final(out)@ == old(out)@ + u64_be(n),
{
    let _ = out.write_u64::<BigEndian>(n);
}

/// `byteorder::WriteBytesExt::write_i64` with `BigEndian`, on a vector: the
/// eight bytes of `n` in two's complement are appended. Writing to a vector
/// does not fail.
#[verifier::external_body]
pub(crate) fn be_write_i64(out: &mut Vec<u8>, n: i64)
    ensures
        final(out)@ == old(out)@ + i64_be(n),
{
    let _ = out.write_i64::<BigEndian>(n);
}

/// What a decoder of a `T` makes of the bytes before it: the value and the
/// bytes that follow it, or the reason why there is none.
pub type Parsed<T> = Result<(T, Seq<u8>), ParseError>;

/// A read that went as `expected` says: on success it returned the expected
/// value and left the expected bytes, otherwise it returned the expected
/// error.
pub open spec fn read_gives<T>(expected: Parsed<T>, got: Result<T, ParseError>, left: Seq<u8>)
    -> bool {
    match expected {
        Ok((value, rest)) => got == Ok::<T, ParseError>(value) && left == rest,
        Err(e) => got == Err::<T, ParseError>(e),
    }
}

/// Decodes one byte.
pub open spec fn parse_u8(s: Seq<u8>) -> Parsed<u8> {
    if s.len() < 1 {
        Err(ParseError::ShortRead)
    } else {
        Ok((s[0], s.skip(1)))
    }
}

/// Decodes a big-endian `u16`.
pub open spec fn parse_u16(s: Seq<u8>) -> Parsed<u16> {
    if s.len() < 2 {
        Err(ParseError::ShortRead)
    } else {
        Ok((u16_from_be(s), s.skip(2)))
    }
}

/// Decodes a big-endian `u32`.
pub open spec fn parse_u32(s: Seq<u8>) -> Parsed<u32> {
    if s.len() < 4 {
        Err(ParseError::ShortRead)
    } else {
        Ok((u32_from_be(s), s.skip(4)))
    }
}

/// Decodes a big-endian `u64`.
pub open spec fn parse_u64(s: Seq<u8>) -> Parsed<u64> {
    if s.len() < 8 {
        Err(ParseError::ShortRead)
    } else {
        Ok((u64_from_be(s), s.skip(8)))
    }
}

/// Decodes a big-endian `i64`.
pub open spec fn parse_i64(s: Seq<u8>) -> Parsed<i64> {
    if s.len() < 8 {
        Err(ParseError::ShortRead)
    } else {
        Ok((i64_from_be(s), s.skip(8)))
    }
}

/// Decodes `n` raw bytes.
pub open spec fn parse_bytes(s: Seq<u8>, n: nat) -> Parsed<Seq<u8>> {
    if s.len() < n {
        Err(ParseError::ShortRead)
    } else {
        Ok((s.take(n as int), s.skip(n as int)))
    }
}

/// Accepts the end of the input and nothing else.
pub open spec fn parse_end(s: Seq<u8>) -> Result<(), ParseError> {
    if s.len() == 0 {
        Ok(())
    } else {
        Err(ParseError::TrailingBytes)
    }
}

/// A position in a byte slice, from which decoders read front to back.
pub struct Cursor<'a> {
    bytes: &'a [u8],
    position: usize,
}

impl<'a> Cursor<'a> {
    #[verifier::type_invariant]
    spec fn within(&self) -> bool {
        self.position <= self.bytes@.len()
    }

    /// The bytes not read yet.
    pub closed spec fn remaining(&self) -> Seq<u8> {
        self.bytes@.skip(self.position as int)
    }

    /// The whole slice that the cursor reads from.
    pub closed spec fn source(&self) -> Seq<u8> {
        self.bytes@
    }

    /// A cursor before the first byte of `bytes`.
    pub fn new(bytes: &'a [u8]) -> (cursor: Cursor<'a>)
        ensures
            cursor.remaining() == bytes@,
            cursor.source() == bytes@,
    {
        Cursor { bytes, position: 0 }
    }

    /// How many bytes are not read yet.
    pub fn remaining_len(&self) -> (n: usize)
        ensures
            n == self.remaining().len(),
    {
        proof {
            use_type_invariant(self);
        }
        self.bytes.len() - self.position
    }

    /// Steps over `n` bytes.
    pub(crate) fn advance(&mut self, n: usize)
        requires
            n <= old(self).remaining().len(),
        ensures
            final(self).remaining() == old(self).remaining().skip(n as int),
            final(self).source() == old(self).source(),
    {
        let total = self.bytes.len();
        proof {
            use_type_invariant(&*self);
            assert(self.remaining().len() == total - self.position);
        }
        self.position = self.position + n;
        assert(self.bytes@.skip(self.position as int) =~= old(self).remaining().skip(n as int));
    }

    /// The next `n` bytes, without stepping over them.
    pub(crate) fn peek(&self, n: usize) -> (front: &'a [u8])
        requires
            n <= self.remaining().len(),
        ensures
            front@ == self.remaining().take(n as int),
    {
        let total = self.bytes.len();
        proof {
            use_type_invariant(self);
            assert(self.remaining().len() == total - self.position);
        }
        let front = vstd::slice::slice_subrange(self.bytes, self.position, self.position + n);
        assert(front@ =~= self.remaining().take(n as int));
        front
    }

    /// Reads one byte.
    pub fn read_u8(&mut self) -> (r: Result<u8, ParseError>)
        ensures
            read_gives(parse_u8(old(self).remaining()), r, final(self).remaining()),
            final(self).source() == old(self).source(),
    {
        if self.remaining_len() < 1 {
            return Err(ParseError::ShortRead);
        }
        let front = self.peek(1);
        let byte = front[0];
        self.advance(1);
        Ok(byte)
    }

    /// Reads `n` raw bytes.
    pub fn read_bytes(&mut self, n: usize) -> (r: Result<Vec<u8>, ParseError>)
        ensures
            match parse_bytes(old(self).remaining(), n as nat) {
                Ok((bytes, rest)) => r matches Ok(v) && v@ == bytes && final(self).remaining()
                    == rest,
                Err(e) => r == Err::<Vec<u8>, ParseError>(e),
            },
            final(self).source() == old(self).source(),
    {
        if self.remaining_len() < n {
            return Err(ParseError::ShortRead);
        }
        let bytes = vstd::slice::slice_to_vec(self.peek(n));
        self.advance(n);
        Ok(bytes)
    }

    /// Reads a big-endian `u16`.
    pub fn read_u16(&mut self) -> (r: Result<u16, ParseError>)
        ensures
            read_gives(parse_u16(old(self).remaining()), r, final(self).remaining()),
            final(self).source() == old(self).source(),
    {
        if self.remaining_len() < 2 {
            return Err(ParseError::ShortRead);
        }
        let n = be_read_u16(self.peek(2));
        proof {
            let s = self.remaining();
            assert(s.take(2).take(2) =~= s.take(2));
            lemma_u16_from_prefix(s.take(2), s);
        }
        self.advance(2);
        Ok(n)
    }

    /// Reads a big-endian `u32`.
    pub fn read_u32(&mut self) -> (r: Result<u32, ParseError>)
        ensures
            read_gives(parse_u32(old(self).remaining()), r, final(self).remaining()),
            final(self).source() == old(self).source(),
    {
        if self.remaining_len() < 4 {
            return Err(ParseError::ShortRead);
        }
        let n = be_read_u32(self.peek(4));
        proof {
            let s = self.remaining();
            assert(s.take(4).take(4) =~= s.take(4));
            lemma_u32_from_prefix(s.take(4), s);
        }
        self.advance(4);
        Ok(n)
    }

    /// Reads a big-endian `u64`.
    pub fn read_u64(&mut self) -> (r: Result<u64, ParseError>)
        ensures
            read_gives(parse_u64(old(self).remaining()), r, final(self).remaining()),
            final(self).source() == old(self).source(),
    {
        if self.remaining_len() < 8 {
            return Err(ParseError::ShortRead);
        }
        let n = be_read_u64(self.peek(8));
        proof {
            let s = self.remaining();
            assert(s.take(8).take(8) =~= s.take(8));
            lemma_u64_from_prefix(s.take(8), s);
        }
        self.advance(8);
        Ok(n)
    }

    /// Reads a big-endian `i64`.
    pub fn read_i64(&mut self) -> (r: Result<i64, ParseError>)
        ensures
            read_gives(parse_i64(old(self).remaining()), r, final(self).remaining()),
            final(self).source() == old(self).source(),
    {
        if self.remaining_len() < 8 {
            return Err(ParseError::ShortRead);
        }
        let n = be_read_i64(self.peek(8));
        proof {
            let s = self.remaining();
            assert(s.take(8).take(8) =~= s.take(8));
            lemma_u64_from_prefix(s.take(8), s);
        }
        self.advance(8);
        Ok(n)
    }

    /// Succeeds where every byte has been read.
    pub fn check_no_more_data(&self) -> (r: Result<(), ParseError>)
        ensures
            r == parse_end(self.remaining()),
    {
        if self.remaining_len() == 0 {
            Ok(())
        } else {
            Err(ParseError::TrailingBytes)
        }
    }
}

} // verus!
