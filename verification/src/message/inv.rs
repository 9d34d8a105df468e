//! The `inv` message: an advertisement of the objects that a peer holds.

use vstd::prelude::*;
use crate::message::{InventoryVector, MAX_INV_COUNT, ParseError};
use crate::message::inventory_vector::{
    hash_list_payload, hashes_of, parse_hash_list, read_hash_list, write_hash_list,
};

verus! {

/// An advertisement of objects, by their hashes.
pub struct InvMessage {
    inventory: Vec<InventoryVector>,
}

impl View for InvMessage {
    type V = Seq<Seq<u8>>;

    /// The advertised hashes, in order.
    open spec fn view(&self) -> Seq<Seq<u8>> {
        hashes_of(self.entries())
    }
}

impl InvMessage {
    #[verifier::type_invariant]
    spec fn within_limit(&self) -> bool {
        self.inventory@.len() <= MAX_INV_COUNT
    }

    /// The inventory vectors of the advertisement, in order.
    pub closed spec fn entries(&self) -> Seq<InventoryVector> {
        self.inventory@
    }

    /// The payload of an advertisement of `hashes`.
    pub open spec fn payload_of(hashes: Seq<Seq<u8>>) -> Seq<u8> {
        hash_list_payload(hashes)
    }

    /// Decodes a payload: at most 50000 hashes and nothing after them.
    pub open spec fn parse(payload: Seq<u8>) -> Result<Seq<Seq<u8>>, ParseError> {
        parse_hash_list(payload, MAX_INV_COUNT)
    }

    /// An advertisement of the given objects, 50000 at most.
    pub fn new(inventory: Vec<InventoryVector>) -> (message: InvMessage)
        requires
            inventory@.len() <= MAX_INV_COUNT,
        ensures
            message.entries() == inventory@,
    {
        InvMessage { inventory }
    }

    /// Decodes the payload of an `inv` frame.
    pub fn read(payload: Vec<u8>) -> (r: Result<Box<InvMessage>, ParseError>)
        ensures
            match Self::parse(payload@) {
                Ok(hashes) => r matches Ok(message) && message@ == hashes,
                Err(e) => r == Err::<Box<InvMessage>, ParseError>(e),
            },
    {
        let inventory = read_hash_list(payload.as_slice(), MAX_INV_COUNT)?;
        Ok(Box::new(InvMessage::new(inventory)))
    }

    /// The inventory vectors of the advertisement.
    pub fn inventory(&self) -> (inventory: &Vec<InventoryVector>)
        ensures
            inventory@ == self.entries(),
            inventory@.len() <= MAX_INV_COUNT,
    {
        proof {
            use_type_invariant(self);
        }
        &self.inventory
    }

    /// The command name of the frame, `inv`.
    pub fn command(&self) -> (name: String)
        ensures
            name@ == "inv"@,
    {
        "inv".to_owned()
    }

    /// The payload of the frame.
    pub fn payload(&self) -> (payload: Vec<u8>)
        ensures
            payload@ == Self::payload_of(self@),
    {
        let mut payload = Vec::new();
        write_hash_list(&mut payload, &self.inventory);
        payload
    }
}

} // verus!
