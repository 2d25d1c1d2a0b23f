//! The prover's view of Cairo memory: every address holds the id of a value,
//! and every id names a field element split into 28 limbs of 9 bits.

use vstd::prelude::*;
use crate::m31::P;

verus! {

/// Number of 9-bit limbs of a memory value.
pub const N_LIMBS: usize = 28;

/// Exclusive bound of a limb (2^9).
pub const LIMB_BOUND: u32 = 512;

/// Memory as two tables: address to value id, and value id to value limbs
/// (least significant limb first).
pub struct Memory {
    pub address_to_id: Vec<u32>,
    pub id_to_big: Vec<[u32; 28]>,
}

impl Memory {
    /// Every address names a stored value whose id is a field element, and
    /// every limb of every value is below 2^9.
    pub open spec fn wf(&self) -> bool {
        &&& forall|a: int|
            0 <= a < self.address_to_id@.len() ==> #[trigger] self.address_to_id@[a]
                < self.id_to_big@.len() && self.address_to_id@[a] < P
        &&& forall|id: int, i: int|
            0 <= id < self.id_to_big@.len() && 0 <= i < 28 ==> #[trigger] self.id_to_big@[id][i]
                < LIMB_BOUND
    }

    /// The address has a value.
    pub open spec fn has_address(&self, address: u32) -> bool {
        address < self.address_to_id@.len()
    }

    /// The id of the value at an address.
    pub open spec fn id_at(&self, address: u32) -> u32 {
        self.address_to_id@[address as int]
    }

    /// The limbs of the value with an id.
    pub open spec fn limbs_of(&self, id: u32) -> [u32; 28] {
        self.id_to_big@[id as int]
    }

    /// The id of the value stored at `address`.
    pub fn get_id(&self, address: u32) -> (id: u32)
        requires
            self.wf(),
            self.has_address(address),
        ensures
            id == self.id_at(address),
            (id as int) < self.id_to_big@.len(),
            id < P,
    {
        self.address_to_id[address as usize]
    }

    /// The limbs of the value with id `id`.
    pub fn get_big(&self, id: u32) -> (limbs: [u32; 28])
        requires
            (id as int) < self.id_to_big@.len(),
        ensures
            limbs == self.limbs_of(id),
    {
        self.id_to_big[id as usize]
    }
}

} // verus!
