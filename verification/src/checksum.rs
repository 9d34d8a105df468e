//! The hash functions of the protocol and the checksum of a frame.

use vstd::prelude::*;
use crypto::digest::Digest;
use crypto::sha2::{Sha256, Sha512};

verus! {

/// The SHA-256 digest of `data`.
pub uninterp spec fn sha256_digest(data: Seq<u8>) -> Seq<u8>;

/// The SHA-512 digest of `data`.
pub uninterp spec fn sha512_digest(data: Seq<u8>) -> Seq<u8>;

/// SHA-256 applied twice.
pub open spec fn double_sha256_digest(data: Seq<u8>) -> Seq<u8> {
    sha256_digest(sha256_digest(data))
}

/// SHA-512 applied twice.
pub open spec fn double_sha512_digest(data: Seq<u8>) -> Seq<u8> {
    sha512_digest(sha512_digest(data))
}

/// The checksum of a payload: the first four bytes of its double SHA-256.
pub open spec fn checksum_of(payload: Seq<u8>) -> Seq<u8> {
    Seq::new(4, |i: int| double_sha256_digest(payload)[i])
}

/// `crypto::sha2::Sha256`, fed `data` through `Digest::input` and read out
/// through `Digest::result`: the SHA-256 digest of `data`, which is 32 bytes
/// long.
#[verifier::external_body]
pub(crate) fn sha256(data: &[u8]) -> (digest: Vec<u8>)
    ensures
        digest@ == sha256_digest(data@),
        digest@.len() == 32,
{
    let mut hasher = Sha256::new();
    hasher.input(data);
    let mut digest = vec![0u8; 32];
    hasher.result(&mut digest);
    digest
}

/// `crypto::sha2::Sha512`, fed `data` through `Digest::input` and read out
/// through `Digest::result`: the SHA-512 digest of `data`, which is 64 bytes
/// long.
#[verifier::external_body]
pub(crate) fn sha512(data: &[u8]) -> (digest: Vec<u8>)
    ensures
        digest@ == sha512_digest(data@),
        digest@.len() == 64,
{
    let mut hasher = Sha512::new();
    hasher.input(data);
    let mut digest = vec![0u8; 64];
    hasher.result(&mut digest);
    digest
}

/// SHA-512 applied twice to `data`.
pub fn double_sha512(data: &[u8]) -> (digest: Vec<u8>)
    ensures
        digest@ == double_sha512_digest(data@),
        digest@.len() == 64,
{
    let once = sha512(data);
    sha512(once.as_slice())
}

/// The checksum of `payload`.
pub fn checksum(payload: &[u8]) -> (sum: Vec<u8>)
    ensures
        sum@ == checksum_of(payload@),
        sum@.len() == 4,
{
    let once = sha256(payload);
    let twice = sha256(once.as_slice());
    let mut sum = twice;
    sum.truncate(4);
    assert(sum@ =~= checksum_of(payload@));
    sum
}

} // verus!
