//! The objects that the client holds, by their hashes.

use vstd::prelude::*;
use crate::checksum::{double_sha512, double_sha512_digest};
use crate::message::InventoryVector;
use crate::message::object::ObjectMessage;

verus! {

/// The hash by which an object is known: the first 32 bytes of the double
/// SHA-512 of its payload.
pub open spec fn inventory_hash(payload: Seq<u8>) -> Seq<u8> {
    Seq::new(32, |i: int| double_sha512_digest(payload)[i])
}

/// The inventory vector of the object with the given payload.
pub fn inventory_vector_of(payload: &[u8]) -> (vector: InventoryVector)
    ensures
        vector@ == inventory_hash(payload@),
{
    let digest = double_sha512(payload);
    let front = vstd::slice::slice_subrange(digest.as_slice(), 0, 32);
    assert(front@ =~= inventory_hash(payload@));
    InventoryVector::new(front)
}

/// The objects that the client holds, each under its hash, in the order in
/// which they came.
pub struct Inventory {
    entries: Vec<(InventoryVector, ObjectMessage)>,
}

impl View for Inventory {
    type V = Seq<(Seq<u8>, ObjectMessage)>;

    /// The hashes and their objects, oldest first.
    closed spec fn view(&self) -> Seq<(Seq<u8>, ObjectMessage)> {
        pairs(self.entries@)
    }
}

/// The entries with each inventory vector taken as its bytes.
spec fn pairs(entries: Seq<(InventoryVector, ObjectMessage)>) -> Seq<(Seq<u8>, ObjectMessage)> {
    Seq::new(entries.len(), |i: int| (entries[i].0@, entries[i].1))
}

/// Whether an object is held under `hash`.
pub open spec fn holds(entries: Seq<(Seq<u8>, ObjectMessage)>, hash: Seq<u8>) -> bool {
    exists|i: int| 0 <= i < entries.len() && (#[trigger] entries[i]).0 == hash
}

/// The object that is held under `hash`: the oldest, should there be more
/// than one.
pub open spec fn lookup(entries: Seq<(Seq<u8>, ObjectMessage)>, hash: Seq<u8>) -> Option<
    ObjectMessage,
>
    decreases entries.len(),
{
    if entries.len() == 0 {
        None
    } else if entries[0].0 == hash {
        Some(entries[0].1)
    } else {
        lookup(entries.drop_first(), hash)
    }
}

/// An object is found under a hash exactly where one is held under it.
pub proof fn lemma_lookup_holds(entries: Seq<(Seq<u8>, ObjectMessage)>, hash: Seq<u8>)
    ensures
        lookup(entries, hash) is Some <==> holds(entries, hash),
        lookup(entries, hash) matches Some(m) ==> entries.contains((hash, m)),
    decreases entries.len(),
{
    if entries.len() == 0 {
    } else if entries[0].0 == hash {
        assert(entries[0] == (hash, entries[0].1));
    } else {
        let tail = entries.drop_first();
        lemma_lookup_holds(tail, hash);
        if holds(entries, hash) {
            let i = choose|i: int| 0 <= i < entries.len() && (#[trigger] entries[i]).0 == hash;
            assert(tail[i - 1] == entries[i]);
        }
        if holds(tail, hash) {
            let i = choose|i: int| 0 <= i < tail.len() && (#[trigger] tail[i]).0 == hash;
            assert(entries[i + 1] == tail[i]);
        }
        if let Some(m) = lookup(tail, hash) {
            let i = choose|i: int| 0 <= i < tail.len() && tail[i] == (hash, m);
            assert(entries[i + 1] == tail[i]);
        }
    }
}

/// Whether no hash occurs twice.
pub open spec fn distinct_hashes(entries: Seq<(Seq<u8>, ObjectMessage)>) -> bool {
    forall|i: int, j: int|
        0 <= i < j < entries.len() ==> (#[trigger] entries[i]).0 != (#[trigger] entries[j]).0
}

impl Inventory {
    #[verifier::type_invariant]
    spec fn wf(&self) -> bool {
        distinct_hashes(self@)
    }

    /// The inventory that holds nothing.
    pub fn new() -> (inventory: Inventory)
        ensures
            inventory@ == Seq::<(Seq<u8>, ObjectMessage)>::empty(),
    {
        let inventory = Inventory { entries: Vec::new() };
        assert(inventory@ =~= Seq::<(Seq<u8>, ObjectMessage)>::empty());
        inventory
    }

    /// How many objects are held.
    pub fn len(&self) -> (n: usize)
        ensures
            n == self@.len(),
    {
        self.entries.len()
    }

    /// Where the object under `hash` is held, if it is.
    fn position(&self, hash: &InventoryVector) -> (at: Option<usize>)
        ensures
            at matches Some(i) ==> i < self@.len() && lookup(self@, hash@) == Some(
                self@[i as int].1,
            ),
            at is None ==> lookup(self@, hash@) is None,
    {
        let mut i: usize = 0;
        assert(self@.skip(0) =~= self@);
        while i < self.entries.len()
            invariant
                i <= self.entries@.len(),
                lookup(self@, hash@) == lookup(self@.skip(i as int), hash@),
            decreases self.entries@.len() - i,
        {
            assert(self@.skip(i as int)[0] == self@[i as int]);
            if self.entries[i].0.same_as(hash) {
                return Some(i);
            }
            assert(self@.skip(i as int).drop_first() =~= self@.skip(i + 1));
            i = i + 1;
        }
        None
    }

    /// Whether an object is held under `hash`.
    pub fn contains(&self, hash: &InventoryVector) -> (held: bool)
        ensures
            held == holds(self@, hash@),
    {
        proof {
            lemma_lookup_holds(self@, hash@);
        }
        self.position(hash).is_some()
    }

    /// The object that is held under `hash`, if there is one.
    pub fn get(&self, hash: &InventoryVector) -> (object: Option<ObjectMessage>)
        ensures
            object == lookup(self@, hash@),
    {
        match self.position(hash) {
            Some(i) => Some(self.entries[i].1),
            None => None,
        }
    }

    /// Puts `object` under `hash` behind what is held, and says whether it
    /// did: an inventory that holds an object under `hash` stays as it is.
    pub fn insert(&mut self, hash: InventoryVector, object: ObjectMessage) -> (inserted: bool)
        ensures
            inserted == !holds(old(self)@, hash@),
            inserted ==> final(self)@ == old(self)@.push((hash@, object)),
            !inserted ==> final(self)@ == old(self)@,
            distinct_hashes(final(self)@),
    {
        proof {
            use_type_invariant(&*self);
        }
        if self.contains(&hash) {
            return false;
        }
        // The entries are taken out whole and put back whole, so that no
        // hash is ever held twice.
        let mut held = Inventory::new();
        core::mem::swap(self, &mut held);
        let mut entries = held.entries;
        entries.push((hash, object));
        proof {
            let before = old(self)@;
            let after = pairs(entries@);
            assert(after =~= before.push((hash@, object)));
            assert forall|i: int, j: int| 0 <= i < j < after.len() implies (#[trigger] after[i]).0
                != (#[trigger] after[j]).0 by {
                if j < before.len() {
                    assert(before[i].0 != before[j].0);
                } else {
                    assert(before[i].0 != hash@);
                }
            }
        }
        *self = Inventory { entries };
        true
    }

    /// The hashes of the objects that are held, oldest first.
    pub fn iter_hashes(&self) -> (hashes: Vec<InventoryVector>)
        ensures
            hashes@.len() == self@.len(),
            forall|i: int| 0 <= i < self@.len() ==> (#[trigger] hashes@[i])@ == self@[i].0,
            distinct_hashes(self@),
    {
        proof {
            use_type_invariant(self);
        }
        let mut hashes: Vec<InventoryVector> = Vec::new();
        let mut i: usize = 0;
        while i < self.entries.len()
            invariant
                i <= self.entries@.len(),
                hashes@.len() == i,
                forall|k: int| 0 <= k < i ==> (#[trigger] hashes@[k])@ == self@[k].0,
            decreases self.entries@.len() - i,
        {
            hashes.push(self.entries[i].0);
            i = i + 1;
        }
        hashes
    }
}

} // verus!
