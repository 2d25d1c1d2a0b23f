//! Reading one message word of the round from memory: the word is rebuilt
//! from the low limbs of the memory value ("read"), split again into the
//! pieces that the range check and the memory lookup consume ("verify").

use vstd::prelude::*;
use crate::m31::{P, is_m31};
use crate::memory::Memory;

verus! {

/// The columns and values that reading one message word produces.
#[derive(Clone, Copy, Debug, PartialEq, Eq)]
pub struct WordRead {
    /// Memory address of the word.
    pub address: u32,
    /// Id of the value stored there.
    pub id: u32,
    /// Low 16 bits of the word, rebuilt from the value's limbs.
    pub low_16_bits: u32,
    /// High part of the word, rebuilt from the value's limbs.
    pub high_16_bits: u32,
    /// Bits 9..16 of the word.
    pub low_7_ms_bits: u32,
    /// Bits 18..32 of the word.
    pub high_14_ms_bits: u32,
    /// Bits 27..32 of the word.
    pub high_5_ms_bits: u32,
    /// The 32-bit word formed from the two 16-bit halves.
    pub word: u32,
}

/// Low 16 bits rebuilt from limbs 0 and 1: limb 0 and the low 7 bits of limb 1.
pub open spec fn low_16_of(l0: u32, l1: u32) -> int {
    (l1 % 128) * 512 + l0
}

/// High part rebuilt from limbs 1, 2 and 3.
pub open spec fn high_16_of(l1: u32, l2: u32, l3: u32) -> int {
    l3 * 2048 + l2 * 4 + l1 / 128
}

/// The 32-bit word with the given halves.
pub open spec fn word_of(low: int, high: int) -> u32 {
    ((low + high * 65536) % 0x1_0000_0000) as u32
}

impl WordRead {
    /// Every piece fits its width, no difference in the lookup entries is
    /// negative, and the word has the two halves.
    pub open spec fn wf(&self) -> bool {
        &&& self.low_16_bits < 65536
        &&& self.high_16_bits < 0x20_0000
        &&& self.low_7_ms_bits < 128
        &&& self.high_14_ms_bits < 16384
        &&& self.high_5_ms_bits < 32
        &&& self.low_7_ms_bits * 512 <= self.low_16_bits
        &&& self.high_14_ms_bits * 4 <= self.high_16_bits
        &&& self.high_5_ms_bits * 512 <= self.high_14_ms_bits
        &&& self.word as int % 65536 == self.low_16_bits as int
        &&& self.word as int / 65536 == self.high_16_bits as int % 65536
        &&& self.id < P
        &&& self.address < P
    }
}

/// What reading the message word at `address` yields.
pub open spec fn spec_word_read(mem: &Memory, address: u32) -> WordRead {
    let id = mem.id_at(address);
    let l = mem.limbs_of(id);
    let low = low_16_of(l[0], l[1]);
    let high = high_16_of(l[1], l[2], l[3]);
    let word = word_of(low, high);
    let high_14 = (word / 65536) / 4;
    WordRead {
        address,
        id,
        low_16_bits: low as u32,
        high_16_bits: high as u32,
        low_7_ms_bits: (word % 65536) / 512,
        high_14_ms_bits: high_14,
        high_5_ms_bits: high_14 / 512,
        word,
    }
}

/// The range-check entry of a read: 7 bits, 2 bits and 5 bits.
pub open spec fn range_check_entry(r: WordRead) -> Seq<u32> {
    seq![r.low_7_ms_bits, (r.high_16_bits - r.high_14_ms_bits * 4) as u32, r.high_5_ms_bits]
}

/// The memory lookup entry of a read: the id, then the value's limbs as
/// recomposed from the read's pieces, then zeros up to 28 limbs.
pub open spec fn id_to_big_entry(r: WordRead) -> Seq<u32> {
    seq![
        r.id,
        (r.low_16_bits - r.low_7_ms_bits * 512) as u32,
        (r.low_7_ms_bits + (r.high_16_bits - r.high_14_ms_bits * 4) * 128) as u32,
        (r.high_14_ms_bits - r.high_5_ms_bits * 512) as u32,
        r.high_5_ms_bits,
    ] + Seq::new(24, |i: int| 0u32)
}

/// The address-to-id lookup entry of a read.
pub open spec fn address_to_id_entry(r: WordRead) -> Seq<u32> {
    seq![r.address, r.id]
}

/// The address-to-id entry of a read is the pair that memory's address
/// table holds: first the address read, then the id stored at that address.
pub proof fn lemma_address_to_id_entry_of_read(mem: &Memory, address: u32)
    ensures
        ({
            let e = address_to_id_entry(spec_word_read(mem, address));
            &&& e.len() == 2
            &&& e[0] == address
            &&& e[1] == mem.address_to_id@[address as int]
        }),
{
}

/// The word formed from a 16-bit low half and any high part keeps the low
/// half and the high part modulo 2^16.
pub proof fn lemma_word_halves(low: int, high: int)
    requires
        0 <= low < 65536,
        0 <= high,
    ensures
        word_of(low, high) as int == low + (high % 65536) * 65536,
        word_of(low, high) as int % 65536 == low,
        word_of(low, high) as int / 65536 == high % 65536,
{
    let q = high / 65536;
    let r = high % 65536;
    vstd::arithmetic::div_mod::lemma_fundamental_div_mod(high, 65536);
    assert(high == q * 65536 + r);
    assert(0 <= r < 65536);
    let small = low + r * 65536;
    assert(0 <= small < 0x1_0000_0000) by (nonlinear_arith)
        requires
            0 <= low < 65536,
            0 <= r < 65536,
            small == low + r * 65536,
    ;
    assert(low + high * 65536 == q * 0x1_0000_0000 + small) by (nonlinear_arith)
        requires
            high == q * 65536 + r,
            small == low + r * 65536,
    ;
    vstd::arithmetic::div_mod::lemma_mod_multiples_vanish(q, small, 0x1_0000_0000);
    vstd::arithmetic::div_mod::lemma_small_mod(small as nat, 0x1_0000_0000);
    assert((low + high * 65536) % 0x1_0000_0000 == small);
    vstd::arithmetic::div_mod::lemma_div_multiples_vanish_fancy(r, low, 65536);
    vstd::arithmetic::div_mod::lemma_mod_multiples_vanish(r, low, 65536);
    vstd::arithmetic::div_mod::lemma_small_mod(low as nat, 65536);
    assert(small == r * 65536 + low);
}

/// Facts about any read from well-formed memory: every piece fits its
/// width and no difference in the lookup entries is negative.
pub proof fn lemma_word_read_bounds(mem: &Memory, address: u32)
    requires
        mem.wf(),
        mem.has_address(address),
        address < P,
    ensures
        spec_word_read(mem, address).wf(),
{
    let id = mem.id_at(address);
    let l = mem.limbs_of(id);
    assert(l[0] < 512 && l[1] < 512 && l[2] < 512 && l[3] < 512);
    let low = low_16_of(l[0], l[1]);
    let high = high_16_of(l[1], l[2], l[3]);
    assert(0 <= low < 65536);
    assert(0 <= high < 0x20_0000);
    lemma_word_halves(low, high);
}

/// Reads the message word at `address`: looks up the id of the value there,
/// rebuilds the word from the value's low limbs, and splits it again into
/// the pieces that the range check and the memory lookup take.
pub fn read_message_word(mem: &Memory, address: u32) -> (r: WordRead)
    requires
        mem.wf(),
        mem.has_address(address),
        address < P,
    ensures
        r == spec_word_read(mem, address),
        r.wf(),
{
    proof {
        lemma_word_read_bounds(mem, address);
    }
    let id = mem.get_id(address);
    let l = mem.get_big(id);
    assert(l[0] < 512 && l[1] < 512 && l[2] < 512 && l[3] < 512);
    // All sums and products below stay under 2^21, far below the modulus,
    // so the field operations of the trace are exact integer operations.
    let top_of_limb_1 = l[1] / 128;
    let low_16_bits = (l[1] - top_of_limb_1 * 128) * 512 + l[0];
    let high_16_bits = l[3] * 2048 + l[2] * 4 + top_of_limb_1;
    let word = ((low_16_bits as u64 + (high_16_bits as u64) * 65536) % 0x1_0000_0000) as u32;
    let high_14_ms_bits = (word / 65536) / 4;
    WordRead {
        address,
        id,
        low_16_bits,
        high_16_bits,
        low_7_ms_bits: (word % 65536) / 512,
        high_14_ms_bits,
        high_5_ms_bits: high_14_ms_bits / 512,
        word,
    }
}

impl WordRead {
    /// The range-check entry: the 7-bit, 2-bit and 5-bit pieces.
    pub fn range_check_values(&self) -> (v: Vec<u32>)
        requires
            self.wf(),
        ensures
            v@ == range_check_entry(*self),
            forall|i: int| 0 <= i < v@.len() ==> is_m31(#[trigger] v@[i]),
    {
        let mid = self.high_16_bits - self.high_14_ms_bits * 4;
        let v = vec![self.low_7_ms_bits, mid, self.high_5_ms_bits];
        assert(v@ =~= range_check_entry(*self));
        v
    }

    /// The address-to-id lookup entry.
    pub fn address_to_id_values(&self) -> (v: Vec<u32>)
        requires
            self.wf(),
        ensures
            v@ == address_to_id_entry(*self),
            v@.len() == 2,
            v@[0] == self.address,
            v@[1] == self.id,
            forall|i: int| 0 <= i < v@.len() ==> is_m31(#[trigger] v@[i]),
    {
        let v = vec![self.address, self.id];
        assert(v@ =~= address_to_id_entry(*self));
        v
    }

    /// The id-to-value lookup entry.
    pub fn id_to_big_values(&self) -> (v: Vec<u32>)
        requires
            self.wf(),
        ensures
            v@ == id_to_big_entry(*self),
            forall|i: int| 0 <= i < v@.len() ==> is_m31(#[trigger] v@[i]),
    {
        let mid = self.high_16_bits - self.high_14_ms_bits * 4;
        let limb_0 = self.low_16_bits - self.low_7_ms_bits * 512;
        let limb_1 = self.low_7_ms_bits + mid * 128;
        let limb_2 = self.high_14_ms_bits - self.high_5_ms_bits * 512;
        let mut v = vec![self.id, limb_0, limb_1, limb_2, self.high_5_ms_bits];
        let mut i: usize = 0;
        while i < 24
            invariant
                i <= 24,
                v@ =~= id_to_big_entry(*self).take(5 + i),
            decreases 24 - i,
        {
            v.push(0);
            i = i + 1;
        }
        assert(v@ =~= id_to_big_entry(*self));
        v
    }
}

/// The integer that limbs 0..4 of a value stand for: limb `i` weighs 2^(9i).
pub open spec fn value_of_low_limbs(l: [u32; 28]) -> int {
    l[0] + l[1] * 512 + l[2] * 0x4_0000 + l[3] * 0x800_0000
}

/// A value is a 32-bit word: limb 3 holds at most 5 bits and all higher
/// limbs are zero.
pub open spec fn is_u32_value(l: [u32; 28]) -> bool {
    &&& l[3] < 32
    &&& forall|i: int| 4 <= i < 28 ==> #[trigger] l[i] == 0
}

/// Reading a memory cell that holds a 32-bit word yields that word, and the
/// pieces handed to the memory lookup are exactly the cell's limbs: the read
/// and the verification of a message word agree with memory. The range-check
/// entry holds limb 1 split 7/2 and limb 3.
pub proof fn lemma_read_of_u32_value(mem: &Memory, address: u32)
    requires
        mem.wf(),
        mem.has_address(address),
        address < P,
        is_u32_value(mem.limbs_of(mem.id_at(address))),
    ensures
        ({
            let r = spec_word_read(mem, address);
            let l = mem.limbs_of(mem.id_at(address));
            &&& r.word as int == value_of_low_limbs(l)
            &&& id_to_big_entry(r) == seq![r.id] + l@
            &&& range_check_entry(r) == seq![l[1] % 128, l[1] / 128, l[3]]
        }),
{
    let id = mem.id_at(address);
    let l = mem.limbs_of(id);
    let r = spec_word_read(mem, address);
    assert(l[0] < 512 && l[1] < 512 && l[2] < 512 && l[3] < 512);
    let low = low_16_of(l[0], l[1]);
    let high = high_16_of(l[1], l[2], l[3]);
    assert(0 <= high < 65536);
    lemma_word_halves(low, high);
    vstd::arithmetic::div_mod::lemma_small_mod(high as nat, 65536);
    assert(r.word as int == low + high * 65536);
    let a = l[1] % 128;
    let b = l[1] / 128;
    vstd::arithmetic::div_mod::lemma_fundamental_div_mod(l[1] as int, 128);
    assert(l[1] == b * 128 + a);
    assert(value_of_low_limbs(l) == low + high * 65536) by (nonlinear_arith)
        requires
            l[1] == b * 128 + a,
            low == a * 512 + l[0],
            high == l[3] * 2048 + l[2] * 4 + b,
    ;
    vstd::arithmetic::div_mod::lemma_div_multiples_vanish_fancy(a as int, l[0] as int, 512);
    assert(r.low_7_ms_bits == a);
    vstd::arithmetic::div_mod::lemma_div_multiples_vanish_fancy(
        (l[3] * 512 + l[2]) as int,
        b as int,
        4,
    );
    assert(high == (l[3] * 512 + l[2]) * 4 + b);
    assert(r.high_14_ms_bits == l[3] * 512 + l[2]);
    vstd::arithmetic::div_mod::lemma_div_multiples_vanish_fancy(l[3] as int, l[2] as int, 512);
    assert(r.high_5_ms_bits == l[3]);
    assert(id_to_big_entry(r) =~= seq![r.id] + l@);
    assert(range_check_entry(r) =~= seq![l[1] % 128, l[1] / 128, l[3]]);
}

} // verus!
