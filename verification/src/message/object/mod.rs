//! The `object` message: the envelope of whatever is spread through the
//! network, stamped with a proof of work.

use vstd::prelude::*;
use crate::clock::{Duration, NSEC_PER_SEC, Timespec, get_time};
use crate::message::{
    MAX_PAYLOAD_LENGTH_FOR_OBJECT, MAX_TTL, OBJECT_EXPIRY_CUTOFF, ParseError,
};
use crate::message::fields::{
    lemma_timestamp_round_trip, read_timestamp, timestamp_bytes, write_timestamp,
};
use crate::message::pow::{
    GenerateError, PowParameters, ProofOfWorkConfig, VerifyError, already_died, generate_proof,
    generates, is_valid_proof, lemma_generated_proof_verifies, lives_too_long, verify_proof,
    verify_proof_spec,
};
use crate::message::var_int::{
    lemma_var_int_round_trip, parse_var_int, read_var_int, var_int, write_var_int_64,
};
use crate::message::wire::{
    Cursor, Parsed, be_write_u32, be_write_u64, i64_from_be, lemma_u32_round_trip,
    lemma_u64_round_trip, parse_end, parse_u32, u32_be, u64_be, u64_from_be,
};

pub mod get_pub_key;

pub use self::get_pub_key::GetPubKeyV4;

verus! {

/// What an object of some type and version holds after the fields that every
/// object has.
pub trait Object {
    /// The type of the object.
    spec fn kind(&self) -> ObjectType;

    /// The version of the object's format.
    spec fn format(&self) -> u64;

    /// The bytes of the object on the wire.
    spec fn content(&self) -> Seq<u8>;

    /// The type of the object.
    fn object_type(&self) -> (object_type: ObjectType)
        ensures
            object_type == self.kind(),
    ;

    /// The version of the object's format.
    fn version(&self) -> (version: u64)
        ensures
            version == self.format(),
    ;

    /// The bytes of the object on the wire.
    fn payload(&self) -> (payload: Vec<u8>)
        ensures
            payload@ == self.content(),
    ;
}

/// The types of objects.
#[derive(Clone, Copy, Debug, PartialEq, Eq)]
pub enum ObjectType {
    GetPubKey,
    PubKey,
    Msg,
    Broadcast,
}

/// The code of an object type on the wire.
pub open spec fn code_of(object_type: ObjectType) -> u32 {
    match object_type {
        ObjectType::GetPubKey => 0,
        ObjectType::PubKey => 1,
        ObjectType::Msg => 2,
        ObjectType::Broadcast => 3,
    }
}

/// The object type that a code stands for.
pub open spec fn type_of_code(code: u32) -> Result<ObjectType, ParseError> {
    if code == 0 {
        Ok(ObjectType::GetPubKey)
    } else if code == 1 {
        Ok(ObjectType::PubKey)
    } else if code == 2 {
        Ok(ObjectType::Msg)
    } else if code == 3 {
        Ok(ObjectType::Broadcast)
    } else {
        Err(ParseError::UnknownObjectType)
    }
}

/// The object type that `code` stands for, or `UnknownObjectType` for a code
/// over 3.
pub fn parse_object_type_code(code: u32) -> (r: Result<ObjectType, ParseError>)
    ensures
        r == type_of_code(code),
{
    match code {
        0 => Ok(ObjectType::GetPubKey),
        1 => Ok(ObjectType::PubKey),
        2 => Ok(ObjectType::Msg),
        3 => Ok(ObjectType::Broadcast),
        _ => Err(ParseError::UnknownObjectType),
    }
}

/// The code of `object_type` on the wire.
pub fn object_type_code(object_type: ObjectType) -> (code: u32)
    ensures
        code == code_of(object_type),
        type_of_code(code) == Ok::<ObjectType, ParseError>(object_type),
{
    match object_type {
        ObjectType::GetPubKey => 0,
        ObjectType::PubKey => 1,
        ObjectType::Msg => 2,
        ObjectType::Broadcast => 3,
    }
}

/// What an object holds, by type and version.
#[derive(Clone, Copy, Debug, PartialEq, Eq)]
pub enum ObjectBody {
    GetPubKeyV4(GetPubKeyV4),
}

impl Object for ObjectBody {
    open spec fn kind(&self) -> ObjectType {
        match self {
            ObjectBody::GetPubKeyV4(body) => body.kind(),
        }
    }

    open spec fn format(&self) -> u64 {
        match self {
            ObjectBody::GetPubKeyV4(body) => body.format(),
        }
    }

    open spec fn content(&self) -> Seq<u8> {
        match self {
            ObjectBody::GetPubKeyV4(body) => body.content(),
        }
    }

    fn object_type(&self) -> ObjectType {
        match self {
            ObjectBody::GetPubKeyV4(body) => body.object_type(),
        }
    }

    fn version(&self) -> u64 {
        match self {
            ObjectBody::GetPubKeyV4(body) => body.version(),
        }
    }

    fn payload(&self) -> Vec<u8> {
        match self {
            ObjectBody::GetPubKeyV4(body) => body.payload(),
        }
    }
}

/// Decodes what an object of the given type and version holds. The only
/// pair with a known format is a request for a public key in version 4.
pub open spec fn parse_body(object_type: ObjectType, version: u64, s: Seq<u8>) -> Parsed<
    ObjectBody,
> {
    if object_type == ObjectType::GetPubKey && version == 4 {
        Ok((ObjectBody::GetPubKeyV4(GetPubKeyV4 {  }), s))
    } else {
        Err(ParseError::UnknownObjectVersion)
    }
}

/// Reads what an object of the given type and version holds, or fails with
/// `UnknownObjectVersion` where no format is known for the pair.
pub fn read_object(object_type: ObjectType, version: u64, source: &mut Cursor) -> (r: Result<
    ObjectBody,
    ParseError,
>)
    ensures
        match parse_body(object_type, version, old(source).remaining()) {
            Ok((body, rest)) => r == Ok::<ObjectBody, ParseError>(body)
                && final(source).remaining() == rest,
            Err(e) => r == Err::<ObjectBody, ParseError>(e),
        },
        final(source).source() == old(source).source(),
{
    match (object_type, version) {
        (ObjectType::GetPubKey, 4) => Ok(ObjectBody::GetPubKeyV4(GetPubKeyV4::read(source)?)),
        _ => Err(ParseError::UnknownObjectVersion),
    }
}

/// The error of a decoder for a proof of work that was not accepted.
pub open spec fn parse_error_of(e: VerifyError) -> ParseError {
    match e {
        VerifyError::ObjectAlreadyDied => ParseError::ObjectExpired,
        VerifyError::ObjectLivesTooLong => ParseError::ObjectLivesTooLong,
        VerifyError::UnacceptableProof => ParseError::UnacceptablePow,
    }
}

/// The error of a decoder for a proof of work that was not accepted.
pub fn verify_to_parse_error(e: VerifyError) -> (error: ParseError)
    ensures
        error == parse_error_of(e),
{
    match e {
        VerifyError::ObjectAlreadyDied => ParseError::ObjectExpired,
        VerifyError::ObjectLivesTooLong => ParseError::ObjectLivesTooLong,
        VerifyError::UnacceptableProof => ParseError::UnacceptablePow,
    }
}

/// Trials asked for each byte of an object.
pub const NONCE_TRIALS_PER_BYTE: u64 = 1000;

/// Bytes added to the length of every object.
pub const EXTRA_BYTES: u64 = 1000;

/// Seconds past its expiry for which an object is still given a proof.
pub const GENERATE_PAST_GRACE: u64 = 60;

/// Seconds of the window in which expired objects are cut off.
pub const CUTOFF_WINDOW: u64 = 300;

/// The parameters by which the proof of work of a received object is judged
/// at the time `now`.
pub open spec fn verify_parameters(now: Timespec) -> PowParameters {
    PowParameters {
        nonce_trials_per_byte: NONCE_TRIALS_PER_BYTE,
        extra_bytes: EXTRA_BYTES,
        past_grace: OBJECT_EXPIRY_CUTOFF,
        max_ttl: MAX_TTL,
        cutoff_window: CUTOFF_WINDOW,
        now,
    }
}

/// The parameters by which a proof of work is generated at the time `now`.
pub open spec fn generate_parameters(now: Timespec) -> PowParameters {
    PowParameters {
        nonce_trials_per_byte: NONCE_TRIALS_PER_BYTE,
        extra_bytes: EXTRA_BYTES,
        past_grace: GENERATE_PAST_GRACE,
        max_ttl: MAX_TTL,
        cutoff_window: CUTOFF_WINDOW,
        now,
    }
}

/// An object with its proof of work.
#[derive(Clone, Copy, Debug, PartialEq, Eq)]
pub struct ObjectMessage {
    pub nonce: u64,
    pub expiry: Timespec,
    pub object_type: ObjectType,
    pub version: u64,
    pub stream_number: u64,
    pub object: ObjectBody,
}

/// The fields that every object has after its nonce: the expiry, the code of
/// the object type, the version and the stream number.
pub open spec fn object_header(
    expiry: Timespec,
    object_type: ObjectType,
    version: u64,
    stream_number: u64,
) -> Seq<u8> {
    timestamp_bytes(expiry) + u32_be(code_of(object_type)) + var_int(version) + var_int(
        stream_number,
    )
}

/// What the proof of work of an object is made for: everything after the
/// nonce.
pub open spec fn object_body_bytes(m: ObjectMessage) -> Seq<u8> {
    object_header(m.expiry, m.object_type, m.version, m.stream_number) + m.object.content()
}

/// The payload of an `object` message: the nonce, then what the nonce is a
/// proof for.
pub open spec fn object_payload(m: ObjectMessage) -> Seq<u8> {
    u64_be(m.nonce) + object_body_bytes(m)
}

/// Decodes what follows the nonce and the expiry of an object, which are
/// given.
pub open spec fn parse_object_rest(nonce: u64, expiry: Timespec, s: Seq<u8>) -> Result<
    ObjectMessage,
    ParseError,
> {
    match parse_u32(s) {
        Err(e) => Err(e),
        Ok((code, after_code)) => match type_of_code(code) {
            Err(e) => Err(e),
            Ok(object_type) => match parse_var_int(after_code, u64::MAX) {
                Err(e) => Err(e),
                Ok((version, after_version)) => match parse_var_int(after_version, u64::MAX) {
                    Err(e) => Err(e),
                    Ok((stream_number, after_stream)) => match parse_body(
                        object_type,
                        version,
                        after_stream,
                    ) {
                        Err(e) => Err(e),
                        Ok((object, after_body)) => match parse_end(after_body) {
                            Err(e) => Err(e),
                            Ok(_) => Ok(
                                ObjectMessage {
                                    nonce,
                                    expiry,
                                    object_type,
                                    version,
                                    stream_number,
                                    object,
                                },
                            ),
                        },
                    },
                },
            },
        },
    }
}

/// Decodes a whole `object` payload and judges its proof of work by `p`. A
/// payload over the limit for objects is refused first; then the nonce and
/// the expiry are read and the proof is judged; then the other fields and
/// the body are read.
pub open spec fn parse_object(s: Seq<u8>, p: PowParameters) -> Result<ObjectMessage, ParseError> {
    if s.len() > MAX_PAYLOAD_LENGTH_FOR_OBJECT {
        Err(ParseError::PayloadTooBig)
    } else if s.len() < 16 {
        Err(ParseError::ShortRead)
    } else {
        let nonce = u64_from_be(s);
        let expiry = Timespec { sec: i64_from_be(s.skip(8)), nsec: 0 };
        match verify_proof_spec(nonce, s.skip(8), expiry, p) {
            Err(e) => Err(parse_error_of(e)),
            Ok(_) => parse_object_rest(nonce, expiry, s.skip(16)),
        }
    }
}

/// Whether `r` is what decoding the `object` payload `s` at the time `now`
/// gives.
pub open spec fn decodes_at(r: Result<Box<ObjectMessage>, ParseError>, s: Seq<u8>, now: Timespec)
    -> bool {
    match parse_object(s, verify_parameters(now)) {
        Ok(m) => r matches Ok(message) && *message == m,
        Err(e) => r == Err::<Box<ObjectMessage>, ParseError>(e),
    }
}

impl ObjectMessage {
    /// Whether the object survives the wire unchanged when its proof of work
    /// is judged by `p`: it expires at a whole second, its type and version
    /// are those of what it holds, its payload is within the limit for
    /// objects, and its nonce is accepted.
    pub open spec fn is_exact(self, p: PowParameters) -> bool {
        &&& self.expiry.nsec == 0
        &&& self.object_type == self.object.kind()
        &&& self.version == self.object.format()
        &&& object_payload(self).len() <= MAX_PAYLOAD_LENGTH_FOR_OBJECT
        &&& verify_proof_spec(self.nonce, object_body_bytes(self), self.expiry, p) is Ok
    }

    /// The object with the given fields.
    pub fn new(
        nonce: u64,
        expiry: Timespec,
        object_type: ObjectType,
        version: u64,
        stream_number: u64,
        object: ObjectBody,
    ) -> (message: ObjectMessage)
        ensures
            message == (ObjectMessage {
                nonce,
                expiry,
                object_type,
                version,
                stream_number,
                object,
            }),
    {
        ObjectMessage { nonce, expiry, object_type, version, stream_number, object }
    }

    /// Decodes the payload of an `object` frame and judges its proof of work
    /// at the time on the system's clock.
    pub fn read(payload: Vec<u8>) -> (r: Result<Box<ObjectMessage>, ParseError>)
        ensures
            exists|now: Timespec| now.is_normal() && #[trigger] decodes_at(r, payload@, now),
    {
        let now = get_time();
        let r = ObjectMessage::read_with_time(now, payload);
        assert(now.is_normal() && decodes_at(r, payload@, now));
        r
    }

    /// Decodes the payload of an `object` frame and judges its proof of work
    /// at the time `now`.
    pub fn read_with_time(now: Timespec, payload: Vec<u8>) -> (r: Result<
        Box<ObjectMessage>,
        ParseError,
    >)
        ensures
            decodes_at(r, payload@, now),
    {
        if payload.len() > MAX_PAYLOAD_LENGTH_FOR_OBJECT as usize {
            return Err(ParseError::PayloadTooBig);
        }
        let mut cursor = Cursor::new(payload.as_slice());
        let nonce = cursor.read_u64()?;
        let expiry = read_timestamp(&mut cursor)?;
        assert(cursor.remaining() =~= payload@.skip(16));

        let verify_config = ProofOfWorkConfig::new(
            NONCE_TRIALS_PER_BYTE,
            EXTRA_BYTES,
            OBJECT_EXPIRY_CUTOFF,
            MAX_TTL,
            CUTOFF_WINDOW,
            now,
        );
        let stamped = vstd::slice::slice_subrange(payload.as_slice(), 8, payload.len());
        assert(stamped@ =~= payload@.skip(8));
        if let Err(e) = verify_proof(nonce, stamped, expiry, &verify_config) {
            return Err(verify_to_parse_error(e));
        }
        let object_type_code = cursor.read_u32()?;
        let object_type = parse_object_type_code(object_type_code)?;
        let version = read_var_int(&mut cursor, u64::MAX)?;
        let stream_number = read_var_int(&mut cursor, u64::MAX)?;
        let object = read_object(object_type, version, &mut cursor)?;

        cursor.check_no_more_data()?;

        Ok(Box::new(ObjectMessage::new(nonce, expiry, object_type, version, stream_number, object)))
    }

    /// The nonce that is the proof of work.
    pub fn nonce(&self) -> (nonce: u64)
        ensures
            nonce == self.nonce,
    {
        self.nonce
    }

    /// When the object expires.
    pub fn expiry(&self) -> (expiry: Timespec)
        ensures
            expiry == self.expiry,
    {
        self.expiry
    }

    /// The type of the object.
    pub fn object_type(&self) -> (object_type: ObjectType)
        ensures
            object_type == self.object_type,
    {
        self.object_type
    }

    /// The version of the object's format.
    pub fn version(&self) -> (version: u64)
        ensures
            version == self.version,
    {
        self.version
    }

    /// The stream that the object belongs to.
    pub fn stream_number(&self) -> (stream_number: u64)
        ensures
            stream_number == self.stream_number,
    {
        self.stream_number
    }

    /// The command name of the frame, `object`.
    pub fn command(&self) -> (name: String)
        ensures
            name@ == "object"@,
    {
        "object".to_owned()
    }

    /// The payload of the frame.
    pub fn payload(&self) -> (payload: Vec<u8>)
        ensures
            payload@ == object_payload(*self),
    {
        let mut payload = Vec::new();
        be_write_u64(&mut payload, self.nonce);
        let mut stamped = create_object_message_payload(
            self.expiry,
            self.object_type,
            self.version,
            self.stream_number,
            &self.object,
        );
        payload.append(&mut stamped);
        assert(payload@ =~= object_payload(*self));
        payload
    }
}

/// What the proof of work of an object with the given fields is made for:
/// everything in its payload after the nonce.
pub fn create_object_message_payload(
    expiry: Timespec,
    object_type: ObjectType,
    version: u64,
    stream_number: u64,
    object: &ObjectBody,
) -> (payload: Vec<u8>)
    ensures
        payload@ == object_header(expiry, object_type, version, stream_number) + object.content(),
{
    let mut payload = Vec::new();
    write_timestamp(&mut payload, expiry);
    be_write_u32(&mut payload, object_type_code(object_type));
    write_var_int_64(&mut payload, version);
    write_var_int_64(&mut payload, stream_number);
    let mut content = object.payload();
    payload.append(&mut content);
    assert(payload@ =~= object_header(expiry, object_type, version, stream_number)
        + object.content());
    payload
}

/// Decoding the payload of an object gives the object, where it survives
/// the wire unchanged.
pub proof fn lemma_object_round_trip(m: ObjectMessage, p: PowParameters)
    requires
        m.is_exact(p),
    ensures
        parse_object(object_payload(m), p) == Ok::<ObjectMessage, ParseError>(m),
{
    let s = object_payload(m);
    let stamped = object_body_bytes(m);
    let content = m.object.content();
    let after_expiry = u32_be(code_of(m.object_type)) + var_int(m.version) + var_int(
        m.stream_number,
    ) + content;
    let after_code = var_int(m.version) + var_int(m.stream_number) + content;
    let after_version = var_int(m.stream_number) + content;
    lemma_u64_round_trip(m.nonce, stamped);
    assert(s.skip(8) =~= stamped);
    assert(stamped =~= timestamp_bytes(m.expiry) + after_expiry);
    lemma_timestamp_round_trip(m.expiry, after_expiry);
    assert(s.skip(16) =~= after_expiry) by {
        assert(s.skip(16) =~= stamped.skip(8));
    }
    assert(after_expiry =~= u32_be(code_of(m.object_type)) + after_code);
    lemma_u32_round_trip(code_of(m.object_type), after_code);
    assert(after_expiry.skip(4) =~= after_code);
    assert(after_code =~= var_int(m.version) + after_version);
    lemma_var_int_round_trip(m.version, u64::MAX, after_version);
    lemma_var_int_round_trip(m.stream_number, u64::MAX, content);
    assert(content =~= Seq::<u8>::empty());
}

/// What decoding yields is stamped: where a payload decodes to an object,
/// the nonce and the expiry of the object are those at the start of the
/// payload, the nonce is a proof of work for what follows it in the
/// payload, and the expiry is within the cutoff behind and the longest time
/// to live ahead of the time at which the proof was judged.
pub proof fn lemma_decoded_object_is_stamped(s: Seq<u8>, p: PowParameters)
    requires
        parse_object(s, p) is Ok,
    ensures
        ({
            let m = parse_object(s, p).unwrap();
            &&& m.nonce == u64_from_be(s)
            &&& m.expiry == (Timespec { sec: i64_from_be(s.skip(8)), nsec: 0 })
            &&& is_valid_proof(m.nonce, s.skip(8), m.expiry, p)
            &&& !already_died(m.expiry, p)
            &&& !lives_too_long(m.expiry, p)
        }),
{
}

/// An object that expired more than the cutoff of 300 seconds before `now`
/// is refused as expired, whatever else it holds, where its payload is
/// within the limit for objects and long enough to hold an expiry.
pub proof fn lemma_expired_object_is_refused(s: Seq<u8>, now: Timespec)
    requires
        16 <= s.len() <= MAX_PAYLOAD_LENGTH_FOR_OBJECT,
        (Timespec { sec: i64_from_be(s.skip(8)), nsec: 0 }).nanos() < now.nanos() - 300
            * NSEC_PER_SEC,
    ensures
        parse_object(s, verify_parameters(now)) == Err::<ObjectMessage, ParseError>(
            ParseError::ObjectExpired,
        ),
{
}

/// What an object that is to be sent holds, as plain values.
pub struct OutboundObject {
    /// How long the object is to live.
    pub ttl: Duration,
    /// The type of the object.
    pub object_type: ObjectType,
    /// The version of the object's format.
    pub version: u64,
    /// The stream that the object belongs to.
    pub stream_number: u64,
    /// What the object holds.
    pub object: ObjectBody,
}

impl OutboundObject {
    /// The object with the given nonce and expiry.
    pub open spec fn stamped(self, nonce: u64, expiry: Timespec) -> ObjectMessage {
        ObjectMessage {
            nonce,
            expiry,
            object_type: self.object_type,
            version: self.version,
            stream_number: self.stream_number,
            object: self.object,
        }
    }
}

/// An object that is to be sent, before its proof of work is made.
#[derive(Clone, Copy, Debug)]
pub struct OutboundObjectMessage {
    ttl: Duration,
    object_type: ObjectType,
    version: u64,
    stream_number: u64,
    object: ObjectBody,
}

impl View for OutboundObjectMessage {
    type V = OutboundObject;

    closed spec fn view(&self) -> OutboundObject {
        OutboundObject {
            ttl: self.ttl,
            object_type: self.object_type,
            version: self.version,
            stream_number: self.stream_number,
            object: self.object,
        }
    }
}

impl OutboundObjectMessage {
    #[verifier::type_invariant]
    spec fn ttl_fits(&self) -> bool {
        self.ttl.spec_num_seconds() < u32::MAX
    }

    /// An object that is to live for `ttl`, which is less than `u32::MAX`
    /// seconds.
    pub fn new(
        ttl: Duration,
        object_type: ObjectType,
        version: u64,
        stream_number: u64,
        object: ObjectBody,
    ) -> (message: OutboundObjectMessage)
        requires
            ttl.spec_num_seconds() < u32::MAX,
        ensures
            message@ == (OutboundObject { ttl, object_type, version, stream_number, object }),
    {
        OutboundObjectMessage { ttl, object_type, version, stream_number, object }
    }

    /// Makes the proof of work for the object at the time `now`: it expires
    /// after its time to live, and its nonce is the smallest that is a proof
    /// for what follows the nonce in its payload. An expiry whose seconds do
    /// not fit is out of range.
    pub fn create_object_message(self, now: Timespec) -> (r: Result<ObjectMessage, GenerateError>)
        ensures
            !(i64::MIN <= now.sec + self@.ttl.spec_num_seconds() <= i64::MAX) ==> r == Err::<
                ObjectMessage,
                GenerateError,
            >(GenerateError::TtlOutOfRange),
            i64::MIN <= now.sec + self@.ttl.spec_num_seconds() <= i64::MAX ==> ({
                let expiry = Timespec {
                    sec: (now.sec + self@.ttl.spec_num_seconds()) as i64,
                    nsec: now.nsec,
                };
                let stamped = object_body_bytes(self@.stamped(0, expiry));
                match r {
                    Ok(message) => message == self@.stamped(message.nonce, expiry) && generates(
                        stamped,
                        expiry,
                        generate_parameters(now),
                        Ok(message.nonce),
                    ),
                    Err(e) => generates(stamped, expiry, generate_parameters(now), Err(e)),
                }
            }),
    {
        proof {
            use_type_invariant(&self);
        }
        let expiry = match now.checked_add(self.ttl) {
            Some(expiry) => expiry,
            None => {
                return Err(GenerateError::TtlOutOfRange);
            },
        };
        let payload = create_object_message_payload(
            expiry,
            self.object_type,
            self.version,
            self.stream_number,
            &self.object,
        );
        let nonce = calculate_nonce(payload.as_slice(), expiry, now)?;

        Ok(
            ObjectMessage::new(
                nonce,
                expiry,
                self.object_type,
                self.version,
                self.stream_number,
                self.object,
            ),
        )
    }
}

/// An object that was given its proof of work at the time `now` decodes, at
/// that time, to itself: what `create_object_message` returns survives the
/// wire unchanged, where it expires at a whole second, its type and version
/// are those of what it holds, and its payload is within the limit for
/// objects.
pub proof fn lemma_created_object_round_trip(
    outbound: OutboundObject,
    now: Timespec,
    message: ObjectMessage,
)
    requires
        message == outbound.stamped(message.nonce, message.expiry),
        generates(
            object_body_bytes(outbound.stamped(0, message.expiry)),
            message.expiry,
            generate_parameters(now),
            Ok(message.nonce),
        ),
        message.expiry.nsec == 0,
        message.object_type == message.object.kind(),
        message.version == message.object.format(),
        object_payload(message).len() <= MAX_PAYLOAD_LENGTH_FOR_OBJECT,
    ensures
        parse_object(object_payload(message), verify_parameters(now)) == Ok::<
            ObjectMessage,
            ParseError,
        >(message),
{
    lemma_generated_proof_verifies(
        message.nonce,
        object_body_bytes(message),
        message.expiry,
        generate_parameters(now),
        verify_parameters(now),
    );
    lemma_object_round_trip(message, verify_parameters(now));
}

/// Searches the smallest nonce that is a proof of work, by the parameters
/// for generating at the time `now`, for what follows the nonce in the
/// payload of an object that expires at `expiry`.
pub fn calculate_nonce(payload: &[u8], expiry: Timespec, now: Timespec) -> (r: Result<
    u64,
    GenerateError,
>)
    ensures
        generates(payload@, expiry, generate_parameters(now), r),
{
    let generate_config = ProofOfWorkConfig::new(
        NONCE_TRIALS_PER_BYTE,
        EXTRA_BYTES,
        GENERATE_PAST_GRACE,
        MAX_TTL,
        CUTOFF_WINDOW,
        now,
    );
    generate_proof(payload, expiry, &generate_config)
}

} // verus!
