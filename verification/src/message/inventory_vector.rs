//! Inventory vectors: the hashes by which objects are known.

use vstd::prelude::*;
use crate::message::ParseError;
use crate::message::var_int::{
    lemma_var_int_round_trip, parse_var_int, read_var_int_usize, var_int, write_var_int_64,
};
use crate::message::wire::Cursor;

verus! {

/// The 32-byte hash of an object's content. Two are equal where their bytes
/// are.
#[derive(Clone, Copy, Debug, PartialEq, Eq)]
pub struct InventoryVector {
    hash: [u8; 32],
}

impl View for InventoryVector {
    type V = Seq<u8>;

    closed spec fn view(&self) -> Seq<u8> {
        self.hash@
    }
}

impl InventoryVector {
    /// The inventory vector with the given 32 bytes.
    pub fn new(hash: &[u8]) -> (v: InventoryVector)
        requires
            hash@.len() == 32,
        ensures
            v@ == hash@,
    {
        let mut bytes = [0u8; 32];
        let mut i: usize = 0;
        while i < 32
            invariant
                i <= 32,
                hash@.len() == 32,
                forall|k: int| 0 <= k < i ==> bytes@[k] == hash@[k],
            decreases 32 - i,
        {
            bytes[i] = hash[i];
            i = i + 1;
        }
        assert(bytes@ =~= hash@);
        InventoryVector { hash: bytes }
    }

    /// The 32 bytes.
    pub fn hash(&self) -> (hash: &[u8; 32])
        ensures
            hash@ == self@,
    {
        &self.hash
    }

    /// Whether two inventory vectors hold the same bytes.
    pub fn same_as(&self, other: &InventoryVector) -> (same: bool)
        ensures
            same == (self@ == other@),
    {
        let mut i: usize = 0;
        while i < 32
            invariant
                i <= 32,
                forall|k: int| 0 <= k < i ==> self.hash@[k] == other.hash@[k],
            decreases 32 - i,
        {
            if self.hash[i] != other.hash[i] {
                return false;
            }
            i = i + 1;
        }
        assert(self.hash@ =~= other.hash@);
        true
    }
}

/// An inventory vector holds 32 bytes, and two with the same bytes are the
/// same.
pub proof fn lemma_inventory_vector_view(a: InventoryVector, b: InventoryVector)
    ensures
        a@.len() == 32,
        a@ == b@ <==> a == b,
{
    if a@ == b@ {
        assert(a.hash =~= b.hash);
    }
}

/// The hashes that a vector of inventory vectors holds, in order.
pub open spec fn hashes_of(inventory: Seq<InventoryVector>) -> Seq<Seq<u8>> {
    Seq::new(inventory.len(), |i: int| inventory[i]@)
}

/// Whether each hash is 32 bytes long.
pub open spec fn all_hash_length(hashes: Seq<Seq<u8>>) -> bool {
    forall|i: int| 0 <= i < hashes.len() ==> (#[trigger] hashes[i]).len() == 32
}

/// The hashes one after the other.
pub open spec fn hashes_bytes(hashes: Seq<Seq<u8>>) -> Seq<u8> {
    Seq::new(hashes.len() * 32, |j: int| hashes[j / 32][j % 32])
}

/// A list of hashes on the wire: their number as a variable-length integer,
/// then the hashes.
pub open spec fn hash_list_payload(hashes: Seq<Seq<u8>>) -> Seq<u8> {
    var_int(hashes.len() as u64) + hashes_bytes(hashes)
}

/// Decodes a whole payload as a list of at most `max` hashes: the count, 32
/// bytes for each hash, and nothing after them.
pub open spec fn parse_hash_list(s: Seq<u8>, max: usize) -> Result<Seq<Seq<u8>>, ParseError> {
    match parse_var_int(s, max as u64) {
        Err(e) => Err(e),
        Ok((count, rest)) => if rest.len() < count * 32 {
            Err(ParseError::ShortRead)
        } else if rest.len() > count * 32 {
            Err(ParseError::TrailingBytes)
        } else {
            Ok(Seq::new(count as nat, |i: int| rest.subrange(i * 32, i * 32 + 32)))
        },
    }
}

/// Decoding the payload of a list of hashes gives the list, where it is no
/// longer than the limit.
pub proof fn lemma_hash_list_round_trip(hashes: Seq<Seq<u8>>, max: usize)
    requires
        hashes.len() <= max,
        all_hash_length(hashes),
    ensures
        parse_hash_list(hash_list_payload(hashes), max) == Ok::<Seq<Seq<u8>>, ParseError>(hashes),
{
    let count = hashes.len() as u64;
    let body = hashes_bytes(hashes);
    lemma_var_int_round_trip(count, max as u64, body);
    let decoded = Seq::new(count as nat, |i: int| body.subrange(i * 32, i * 32 + 32));
    assert forall|i: int| 0 <= i < hashes.len() implies #[trigger] decoded[i] == hashes[i] by {
        assert(hashes[i].len() == 32);
        assert forall|k: int| 0 <= k < 32 implies body[i * 32 + k] == hashes[i][k] by {
            assert((i * 32 + k) / 32 == i);
            assert((i * 32 + k) % 32 == k);
        }
        assert(decoded[i] =~= hashes[i]);
    }
    assert(decoded =~= hashes);
}

/// Appends the payload of a list of hashes.
pub fn write_hash_list(out: &mut Vec<u8>, inventory: &Vec<InventoryVector>)
    ensures
        final(out)@ == old(out)@ + hash_list_payload(hashes_of(inventory@)),
{
    let ghost hashes = hashes_of(inventory@);
    write_var_int_64(out, inventory.len() as u64);
    let ghost head = out@;
    let mut i: usize = 0;
    while i < inventory.len()
        invariant
            i <= inventory.len(),
            hashes == hashes_of(inventory@),
            out@ == head + hashes_bytes(hashes.take(i as int)),
        decreases inventory.len() - i,
    {
        let hash = inventory[i].hash();
        out.extend_from_slice(hash.as_slice());
        proof {
            let shorter = hashes_bytes(hashes.take(i as int));
            let longer = hashes_bytes(hashes.take(i + 1));
            lemma_inventory_vector_view(inventory@[i as int], inventory@[i as int]);
            assert(hashes[i as int] == inventory@[i as int]@);
            assert forall|j: int| 0 <= j < longer.len() implies longer[j] == (shorter
                + hashes[i as int])[j] by {
                if j < i * 32 {
                    assert(j / 32 < i);
                } else {
                    assert(j / 32 == i);
                    assert(j % 32 == j - i * 32);
                }
            }
            assert(longer =~= shorter + hashes[i as int]);
            assert(out@ =~= head + longer);
        }
        i = i + 1;
    }
    assert(hashes.take(i as int) =~= hashes);
    assert(out@ =~= old(out)@ + hash_list_payload(hashes));
}

/// Reads a whole payload as a list of at most `max` hashes.
pub fn read_hash_list(payload: &[u8], max: usize) -> (r: Result<Vec<InventoryVector>, ParseError>)
    ensures
        match parse_hash_list(payload@, max) {
            Ok(hashes) => r matches Ok(v) && hashes_of(v@) == hashes && v@.len() <= max,
            Err(e) => r == Err::<Vec<InventoryVector>, ParseError>(e),
        },
{
    let mut cursor = Cursor::new(payload);
    let count = read_var_int_usize(&mut cursor, max)?;
    let ghost rest = cursor.remaining();
    if cursor.remaining_len() / 32 < count {
        return Err(ParseError::ShortRead);
    }
    let mut inventory: Vec<InventoryVector> = Vec::with_capacity(count);
    let mut i: usize = 0;
    while i < count
        invariant
            i <= count,
            rest.len() >= count * 32,
            cursor.remaining() == rest.skip(i * 32),
            inventory@.len() == i,
            forall|k: int|
                0 <= k < i ==> (#[trigger] inventory@[k])@ == rest.subrange(k * 32, k * 32 + 32),
        decreases count - i,
    {
        let bytes = cursor.peek(32);
        let inv_vect = InventoryVector::new(bytes);
        cursor.advance(32);
        inventory.push(inv_vect);
        proof {
            assert(inv_vect@ =~= rest.subrange(i * 32, i * 32 + 32));
            assert(cursor.remaining() =~= rest.skip((i + 1) * 32));
        }
        i = i + 1;
    }
    cursor.check_no_more_data()?;
    assert(hashes_of(inventory@) =~= Seq::new(
        count as nat,
        |i: int| rest.subrange(i * 32, i * 32 + 32),
    ));
    Ok(inventory)
}

} // verus!
