//! The `getdata` message: a request for the objects with the given hashes.

use vstd::prelude::*;
use crate::message::{InventoryVector, MAX_GETDATA_COUNT, ParseError};
use crate::message::inventory_vector::{
    hash_list_payload, hashes_of, parse_hash_list, read_hash_list, write_hash_list,
};

verus! {

/// A request for objects, by their hashes.
pub struct GetdataMessage {
    inventory: Vec<InventoryVector>,
}

impl View for GetdataMessage {
    type V = Seq<Seq<u8>>;

    /// The requested hashes, in order.
    open spec fn view(&self) -> Seq<Seq<u8>> {
        hashes_of(self.entries())
    }
}

impl GetdataMessage {
    #[verifier::type_invariant]
    spec fn within_limit(&self) -> bool {
        self.inventory@.len() <= MAX_GETDATA_COUNT
    }

    /// The inventory vectors of the request, in order.
    pub closed spec fn entries(&self) -> Seq<InventoryVector> {
        self.inventory@
    }

    /// The payload of a request for `hashes`.
    pub open spec fn payload_of(hashes: Seq<Seq<u8>>) -> Seq<u8> {
        hash_list_payload(hashes)
    }

    /// Decodes a payload: at most 50000 hashes and nothing after them.
    pub open spec fn parse(payload: Seq<u8>) -> Result<Seq<Seq<u8>>, ParseError> {
        parse_hash_list(payload, MAX_GETDATA_COUNT)
    }

    /// A request for the given objects, 50000 at most.
    pub fn new(inventory: Vec<InventoryVector>) -> (message: GetdataMessage)
        requires
            inventory@.len() <= MAX_GETDATA_COUNT,
        ensures
            message.entries() == inventory@,
    {
        GetdataMessage { inventory }
    }

    /// Decodes the payload of a `getdata` frame.
    pub fn read(payload: Vec<u8>) -> (r: Result<Box<GetdataMessage>, ParseError>)
        ensures
            match Self::parse(payload@) {
                Ok(hashes) => r matches Ok(message) && message@ == hashes,
                Err(e) => r == Err::<Box<GetdataMessage>, ParseError>(e),
            },
    {
        let inventory = read_hash_list(payload.as_slice(), MAX_GETDATA_COUNT)?;
        Ok(Box::new(GetdataMessage::new(inventory)))
    }

    /// The inventory vectors of the request.
    pub fn inventory(&self) -> (inventory: &Vec<InventoryVector>)
        ensures
            inventory@ == self.entries(),
            inventory@.len() <= MAX_GETDATA_COUNT,
    {
        proof {
            use_type_invariant(self);
        }
        &self.inventory
    }

    /// The command name of the frame, `getdata`.
    pub fn command(&self) -> (name: String)
        ensures
            name@ == "getdata"@,
    {
        "getdata".to_owned()
    }

    /// The payload of the frame.
    pub fn payload(&self) -> (payload: Vec<u8>)
        ensures
            payload@ == Self::payload_of(self@),
    {
        let mut payload = Vec::new();
        write_hash_list(&mut payload, &self.inventory);
        payload
    }
}

} // verus!
