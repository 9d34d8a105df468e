//! The proof of work that binds a nonce to an object and its expiry.

use vstd::prelude::*;
use crate::checksum::{double_sha512, double_sha512_digest, sha512, sha512_digest};
use crate::clock::{NSEC_PER_SEC, Timespec};
use crate::message::wire::{be_read_u64, be_write_u64, u64_be, u64_from_be};
use vstd::arithmetic::div_mod::lemma_basic_div;

verus! {

/// Why a proof of work was not accepted.
#[derive(Clone, Copy, Debug, PartialEq, Eq)]
pub enum VerifyError {
    /// The object expired longer ago than the grace period allows.
    ObjectAlreadyDied,
    /// The object expires later than the longest time to live allows.
    ObjectLivesTooLong,
    /// The nonce does not meet the target.
    UnacceptableProof,
}

/// Why no proof of work was generated.
#[derive(Clone, Copy, Debug, PartialEq, Eq)]
pub enum GenerateError {
    /// The expiry lies in the past or further ahead than the longest time to
    /// live.
    TtlOutOfRange,
    /// No nonce of 64 bits meets the target.
    NoProofFound,
}

/// The parameters of the proof of work, as plain values.
pub struct PowParameters {
    /// Trials asked for each byte of an object; not 0.
    pub nonce_trials_per_byte: u64,
    /// Bytes added to the length of every object.
    pub extra_bytes: u64,
    /// Seconds past its expiry for which an object is still verified.
    pub past_grace: u64,
    /// Seconds that an expiry may lie ahead at most.
    pub max_ttl: u64,
    /// Seconds of the window in which expired objects are cut off.
    pub cutoff_window: u64,
    /// The time at which proofs are judged.
    pub now: Timespec,
}

/// The parameters of the proof of work and the time at which proofs are
/// judged. It does not change once made.
#[derive(Clone, Copy, Debug)]
pub struct ProofOfWorkConfig {
    nonce_trials_per_byte: u64,
    extra_bytes: u64,
    past_grace: u64,
    max_ttl: u64,
    cutoff_window: u64,
    now: Timespec,
}

impl View for ProofOfWorkConfig {
    type V = PowParameters;

    closed spec fn view(&self) -> PowParameters {
        PowParameters {
            nonce_trials_per_byte: self.nonce_trials_per_byte,
            extra_bytes: self.extra_bytes,
            past_grace: self.past_grace,
            max_ttl: self.max_ttl,
            cutoff_window: self.cutoff_window,
            now: self.now,
        }
    }
}

/// Length in bytes of the hash that stands for the object in a trial.
pub const INITIAL_HASH_LENGTH: usize = 64;

/// The whole seconds from `now` until `expiry`, 0 where it has passed.
pub open spec fn ttl_seconds(expiry: Timespec, now: Timespec) -> int {
    if expiry.nanos() <= now.nanos() {
        0
    } else {
        (expiry.nanos() - now.nanos()) / (NSEC_PER_SEC as int)
    }
}

/// The length that an object of `body_len` bytes counts for: that of its
/// initial hash, 8 for the nonce, and its own.
pub open spec fn counted_length(body_len: int) -> int {
    INITIAL_HASH_LENGTH + 8 + body_len
}

/// The divisor of the target: the trials for each byte, times the counted
/// length with the extra bytes, raised by a 65536th of itself for each
/// second to live.
pub open spec fn target_divisor(body_len: int, ttl: int, p: PowParameters) -> int {
    let base = counted_length(body_len) + p.extra_bytes;
    p.nonce_trials_per_byte * (base + ttl * base / 0x1_0000)
}

/// The value that a trial may reach at most for an object of `body_len`
/// bytes with `ttl` seconds to live.
pub open spec fn proof_target(body_len: int, ttl: int, p: PowParameters) -> int {
    0x1_0000_0000_0000_0000int / target_divisor(body_len, ttl, p)
}

/// The hash that stands for the object in every trial.
pub open spec fn initial_hash(body: Seq<u8>) -> Seq<u8> {
    sha512_digest(body)
}

/// The value of the trial of `nonce`: the first 8 bytes, read big-endian, of
/// the double SHA-512 of the nonce's 8 bytes followed by the initial hash.
pub open spec fn trial_value(nonce: u64, initial_hash: Seq<u8>) -> u64 {
    u64_from_be(double_sha512_digest(u64_be(nonce) + initial_hash))
}

/// Whether `nonce` is a proof of work for the object `body` that expires at
/// `expiry`.
pub open spec fn is_valid_proof(nonce: u64, body: Seq<u8>, expiry: Timespec, p: PowParameters)
    -> bool {
    trial_value(nonce, initial_hash(body)) <= proof_target(
        body.len() as int,
        ttl_seconds(expiry, p.now),
        p,
    )
}

/// Whether `expiry` lies further back than the grace period.
pub open spec fn already_died(expiry: Timespec, p: PowParameters) -> bool {
    expiry.nanos() < p.now.nanos() - p.past_grace * NSEC_PER_SEC
}

/// Whether `expiry` lies further ahead than the longest time to live.
pub open spec fn lives_too_long(expiry: Timespec, p: PowParameters) -> bool {
    expiry.nanos() > p.now.nanos() + p.max_ttl * NSEC_PER_SEC
}

/// The verdict on an object of `body_len` bytes whose nonce gave the trial
/// value `trial`.
pub open spec fn check_proof_spec(trial: u64, body_len: int, expiry: Timespec, p: PowParameters)
    -> Result<(), VerifyError> {
    if already_died(expiry, p) {
        Err(VerifyError::ObjectAlreadyDied)
    } else if lives_too_long(expiry, p) {
        Err(VerifyError::ObjectLivesTooLong)
    } else if trial > proof_target(body_len, ttl_seconds(expiry, p.now), p) {
        Err(VerifyError::UnacceptableProof)
    } else {
        Ok(())
    }
}

/// The verdict on `nonce` as a proof of work for the object `body` that
/// expires at `expiry`.
pub open spec fn verify_proof_spec(nonce: u64, body: Seq<u8>, expiry: Timespec, p: PowParameters)
    -> Result<(), VerifyError> {
    check_proof_spec(trial_value(nonce, initial_hash(body)), body.len() as int, expiry, p)
}

/// Whether the time to live of an object that expires at `expiry` is within
/// 0 and the longest time to live.
pub open spec fn ttl_in_range(expiry: Timespec, p: PowParameters) -> bool {
    p.now.nanos() <= expiry.nanos() <= p.now.nanos() + p.max_ttl * NSEC_PER_SEC
}

/// Whether `r` is what generating a proof for `body` and `expiry` gives: the
/// smallest nonce that is a proof, where the time to live is in range and
/// there is one.
pub open spec fn generates(body: Seq<u8>, expiry: Timespec, p: PowParameters, r: Result<
    u64,
    GenerateError,
>) -> bool {
    if !ttl_in_range(expiry, p) {
        r == Err::<u64, GenerateError>(GenerateError::TtlOutOfRange)
    } else {
        match r {
            Ok(nonce) => is_valid_proof(nonce, body, expiry, p) && forall|smaller: u64|
                smaller < nonce ==> !is_valid_proof(smaller, body, expiry, p),
            Err(e) => e == GenerateError::NoProofFound && forall|nonce: u64|
                !is_valid_proof(nonce, body, expiry, p),
        }
    }
}

/// A generated proof is accepted: where generating gave a nonce, verifying
/// that nonce for the same object and expiry at the same time succeeds. The
/// grace for expired objects may differ between the two, as it does between
/// the parameters for generating and those for verifying.
pub proof fn lemma_generated_proof_verifies(
    nonce: u64,
    body: Seq<u8>,
    expiry: Timespec,
    generating: PowParameters,
    verifying: PowParameters,
)
    requires
        generates(body, expiry, generating, Ok(nonce)),
        verifying.nonce_trials_per_byte == generating.nonce_trials_per_byte,
        verifying.extra_bytes == generating.extra_bytes,
        verifying.max_ttl == generating.max_ttl,
        verifying.now == generating.now,
    ensures
        verify_proof_spec(nonce, body, expiry, verifying) == Ok::<(), VerifyError>(()),
{
    assert(verifying.past_grace * NSEC_PER_SEC >= 0) by (nonlinear_arith)
        requires
            verifying.past_grace >= 0,
            NSEC_PER_SEC > 0,
    ;
}

impl ProofOfWorkConfig {
    #[verifier::type_invariant]
    spec fn asks_for_trials(&self) -> bool {
        self.nonce_trials_per_byte > 0
    }

    /// The parameters as given, judged at the time `now`.
    pub fn new(
        nonce_trials_per_byte: u64,
        extra_bytes: u64,
        past_grace: u64,
        max_ttl: u64,
        cutoff_window: u64,
        now: Timespec,
    ) -> (config: ProofOfWorkConfig)
        requires
            nonce_trials_per_byte > 0,
        ensures
            config@ == (PowParameters {
                nonce_trials_per_byte,
                extra_bytes,
                past_grace,
                max_ttl,
                cutoff_window,
                now,
            }),
    {
        ProofOfWorkConfig {
            nonce_trials_per_byte,
            extra_bytes,
            past_grace,
            max_ttl,
            cutoff_window,
            now,
        }
    }

    /// The parameters as plain values.
    pub fn parameters(&self) -> (p: PowParameters)
        ensures
            p == self@,
            p.nonce_trials_per_byte > 0,
    {
        proof {
            use_type_invariant(self);
        }
        PowParameters {
            nonce_trials_per_byte: self.nonce_trials_per_byte,
            extra_bytes: self.extra_bytes,
            past_grace: self.past_grace,
            max_ttl: self.max_ttl,
            cutoff_window: self.cutoff_window,
            now: self.now,
        }
    }
}

/// A divisor that does not fit 128 bits, or the product of the trials and a
/// sum that large, leaves a target of 0.
proof fn lemma_large_divisor(trials: int, sum: int)
    requires
        trials >= 1,
        sum > 0x1_0000_0000_0000_0000,
    ensures
        0x1_0000_0000_0000_0000int / (trials * sum) == 0,
{
    assert(trials * sum >= sum) by (nonlinear_arith)
        requires
            trials >= 1,
            sum >= 0,
    ;
    lemma_basic_div(0x1_0000_0000_0000_0000int, trials * sum);
}

/// The whole seconds from `now` until `expiry`, 0 where it has passed.
pub fn time_to_live(expiry: Timespec, now: Timespec) -> (ttl: u128)
    ensures
        ttl == ttl_seconds(expiry, now),
{
    let per_sec: i128 = NSEC_PER_SEC as i128;
    let until: i128 = expiry.sec as i128 * per_sec + expiry.nsec as i128;
    let at: i128 = now.sec as i128 * per_sec + now.nsec as i128;
    if until <= at {
        0
    } else {
        ((until - at) / per_sec) as u128
    }
}

/// The value that a trial may reach at most for an object of `body_len`
/// bytes with `ttl` seconds to live.
pub fn target(body_len: usize, ttl: u128, p: &PowParameters) -> (t: u128)
    requires
        p.nonce_trials_per_byte > 0,
    ensures
        t == proof_target(body_len as int, ttl as int, *p),
{
    let trials: u128 = p.nonce_trials_per_byte as u128;
    let base: u128 = INITIAL_HASH_LENGTH as u128 + 8 + body_len as u128 + p.extra_bytes as u128;
    let raised: u128 = match ttl.checked_mul(base) {
        Some(product) => product / 0x1_0000,
        None => {
            proof {
                lemma_large_divisor(trials as int, base + ttl * base / 0x1_0000);
            }
            return 0;
        },
    };
    let sum: u128 = base + raised;
    match trials.checked_mul(sum) {
        Some(divisor) => {
            assert(divisor >= sum) by (nonlinear_arith)
                requires
                    divisor == trials * sum,
                    trials >= 1,
                    sum >= 0,
            ;
            0x1_0000_0000_0000_0000u128 / divisor
        },
        None => {
            proof {
                lemma_basic_div(0x1_0000_0000_0000_0000int, trials * sum);
            }
            0
        },
    }
}

/// The point in time as nanoseconds since the epoch.
fn nanos_of(t: Timespec) -> (n: i128)
    ensures
        n == t.nanos(),
{
    let per_sec: i128 = NSEC_PER_SEC as i128;
    t.sec as i128 * per_sec + t.nsec as i128
}

/// Judges an object of `body_len` bytes whose nonce gave the trial value
/// `trial`: first its expiry, then the trial against the target.
pub fn check_proof(trial: u64, body_len: usize, expiry: Timespec, config: &ProofOfWorkConfig) -> (r:
    Result<(), VerifyError>)
    ensures
        r == check_proof_spec(trial, body_len as int, expiry, config@),
{
    let p = config.parameters();
    let until = nanos_of(expiry);
    let at = nanos_of(p.now);
    let per_sec: i128 = NSEC_PER_SEC as i128;
    if until < at - p.past_grace as i128 * per_sec {
        return Err(VerifyError::ObjectAlreadyDied);
    }
    if until > at + p.max_ttl as i128 * per_sec {
        return Err(VerifyError::ObjectLivesTooLong);
    }
    let limit = target(body_len, time_to_live(expiry, p.now), &p);
    if trial as u128 > limit {
        Err(VerifyError::UnacceptableProof)
    } else {
        Ok(())
    }
}

/// The hash that stands for the object `body` in every trial.
pub fn compute_initial_hash(body: &[u8]) -> (hash: Vec<u8>)
    ensures
        hash@ == initial_hash(body@),
        hash@.len() == 64,
{
    sha512(body)
}

/// The value of the trial of `nonce` on the initial hash of an object.
pub fn trial(nonce: u64, initial_hash: &[u8]) -> (value: u64)
    ensures
        value == trial_value(nonce, initial_hash@),
{
    let mut input: Vec<u8> = Vec::new();
    be_write_u64(&mut input, nonce);
    input.extend_from_slice(initial_hash);
    assert(input@ =~= u64_be(nonce) + initial_hash@);
    let digest = double_sha512(input.as_slice());
    be_read_u64(digest.as_slice())
}

/// Judges `nonce` as a proof of work for the object `body` that expires at
/// `expiry`.
pub fn verify_proof(nonce: u64, body: &[u8], expiry: Timespec, config: &ProofOfWorkConfig) -> (r:
    Result<(), VerifyError>)
    ensures
        r == verify_proof_spec(nonce, body@, expiry, config@),
{
    let hash = compute_initial_hash(body);
    let value = trial(nonce, hash.as_slice());
    check_proof(value, body.len(), expiry, config)
}

/// Searches the smallest nonce that is a proof of work for the object `body`
/// that expires at `expiry`. The search tries the nonces from 0 up and may
/// take long.
pub fn generate_proof(body: &[u8], expiry: Timespec, config: &ProofOfWorkConfig) -> (r: Result<
    u64,
    GenerateError,
>)
    ensures
        generates(body@, expiry, config@, r),
{
    let p = config.parameters();
    let until = nanos_of(expiry);
    let at = nanos_of(p.now);
    let per_sec: i128 = NSEC_PER_SEC as i128;
    if until < at || until > at + p.max_ttl as i128 * per_sec {
        return Err(GenerateError::TtlOutOfRange);
    }
    let limit = target(body.len(), time_to_live(expiry, p.now), &p);
    let hash = compute_initial_hash(body);
    let mut nonce: u64 = 0;
    loop
        invariant
            p == config@,
            hash@ == initial_hash(body@),
            limit == proof_target(body@.len() as int, ttl_seconds(expiry, p.now), p),
            ttl_in_range(expiry, p),
            forall|smaller: u64| smaller < nonce ==> !is_valid_proof(smaller, body@, expiry, p),
        decreases u64::MAX - nonce,
    {
        if trial(nonce, hash.as_slice()) as u128 <= limit {
            return Ok(nonce);
        }
        if nonce == u64::MAX {
            return Err(GenerateError::NoProofFound);
        }
        nonce = nonce + 1;
    }
}

} // verus!
