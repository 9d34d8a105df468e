//! The request for a public key.

use vstd::prelude::*;
use crate::message::ParseError;
use crate::message::object::{Object, ObjectType};
use crate::message::wire::Cursor;

verus! {

/// A request for a public key, in version 4 of its format. Nothing follows
/// the fields that every object has.
#[derive(Clone, Copy, Debug, PartialEq, Eq)]
pub struct GetPubKeyV4 {}

impl GetPubKeyV4 {
    /// The request.
    pub fn new() -> (request: GetPubKeyV4)
        ensures
            request == (GetPubKeyV4 {  }),
    {
        GetPubKeyV4 {  }
    }

    /// Reads the request and leaves the cursor where it is.
    pub fn read(cursor: &mut Cursor) -> (r: Result<GetPubKeyV4, ParseError>)
        ensures
            r == Ok::<GetPubKeyV4, ParseError>(GetPubKeyV4 {  }),
            final(cursor).remaining() == old(cursor).remaining(),
            final(cursor).source() == old(cursor).source(),
    {
        Ok(GetPubKeyV4 {  })
    }
}

impl Object for GetPubKeyV4 {
    open spec fn kind(&self) -> ObjectType {
        ObjectType::GetPubKey
    }

    open spec fn format(&self) -> u64 {
        4
    }

    open spec fn content(&self) -> Seq<u8> {
        Seq::empty()
    }

    fn object_type(&self) -> ObjectType {
        ObjectType::GetPubKey
    }

    fn version(&self) -> u64 {
        4
    }

    fn payload(&self) -> Vec<u8> {
        Vec::new()
    }
}

} // verus!
