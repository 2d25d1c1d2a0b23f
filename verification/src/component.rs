//! The claim generator of the round component: it collects packed round
//! inputs, pads them to a power of two, and writes the trace, the lookup
//! data and the sub-component inputs of every row.

use vstd::prelude::*;
use vstd::arithmetic::power2::pow2;
use crate::memory::Memory;
use crate::round::{
    BlakeRoundInput, RowLookupData, RowSubComponentInputs, deduce_round_output, is_round_output,
    trace_row, valid_input, write_row,
};

verus! {

/// Rows per packed row.
pub const N_LANES: usize = 16;

/// Base-2 logarithm of `N_LANES`.
pub const LOG_N_LANES: u32 = 4;

/// Sixteen round inputs, one per lane.
pub type PackedInputType = [BlakeRoundInput; 16];

/// The claim of the component: base-2 logarithm of its number of rows.
#[derive(Clone, Copy, Debug, PartialEq, Eq)]
pub struct Claim {
    pub log_size: u32,
}

/// Computes round outputs from memory.
pub struct BlakeRound {
    pub memory: Memory,
}

impl BlakeRound {
    /// A round evaluator over `memory`.
    pub fn new(memory: Memory) -> (r: BlakeRound)
        ensures
            r.memory == memory,
    {
        BlakeRound { memory }
    }

    /// The outputs of the rounds on each lane of `input`.
    pub fn deduce_output(&self, input: &PackedInputType) -> (out: PackedInputType)
        requires
            self.memory.wf(),
            forall|j: int| 0 <= j < 16 ==> valid_input(&self.memory, #[trigger] input[j]),
        ensures
            forall|j: int| 0 <= j < 16 ==> is_round_output(&self.memory, input[j], #[trigger] out[j]),
    {
        let mut out: PackedInputType = *input;
        let mut j: usize = 0;
        while j < 16
            invariant
                j <= 16,
                self.memory.wf(),
                forall|i: int| 0 <= i < 16 ==> valid_input(&self.memory, #[trigger] input[i]),
                forall|i: int| 0 <= i < j ==> is_round_output(&self.memory, input[i], #[trigger] out[i]),
            decreases 16 - j,
        {
            let o = deduce_round_output(&self.memory, &input[j]);
            out[j] = o;
            j = j + 1;
        }
        out
    }
}

/// Collects the inputs of the round component and writes its trace.
pub struct ClaimGenerator {
    pub packed_inputs: Vec<PackedInputType>,
    pub state: BlakeRound,
}

/// `k` is the base-2 logarithm of the smallest power of two that is at
/// least `n`.
pub open spec fn is_log_next_power_of_two(n: nat, k: nat) -> bool {
    &&& pow2(k) >= n
    &&& (k == 0 || pow2((k - 1) as nat) < n)
}

/// The smallest power of two that is at least `n`, and its logarithm.
pub fn next_power_of_two_with_log(n: usize) -> (r: (usize, u32))
    requires
        n <= usize::MAX / 2,
    ensures
        r.0 as nat == pow2(r.1 as nat),
        r.1 < 64,
        is_log_next_power_of_two(n as nat, r.1 as nat),
        r.0 <= if n <= 1 { 1 } else { 2 * n - 1 },
{
    let mut p: usize = 1;
    let mut k: u32 = 0;
    proof {
        vstd::arithmetic::power2::lemma2_to64();
    }
    while p < n
        invariant
            n <= usize::MAX / 2,
            p as nat == pow2(k as nat),
            1 <= p,
            k < 64,
            k == 0 || pow2((k - 1) as nat) < n,
            p <= if n <= 1 { 1 } else { 2 * n - 1 },
        decreases 64 - k,
    {
        proof {
            vstd::arithmetic::power2::lemma_pow2_unfold((k + 1) as nat);
        }
        if k >= 63 {
            proof {
                vstd::arithmetic::power2::lemma2_to64_rest();
                vstd::arithmetic::power2::lemma_pow2_strictly_increases(63, k as nat);
                if k > 63 {
                    vstd::arithmetic::power2::lemma_pow2_strictly_increases(63, k as nat);
                }
            }
            assert(false);
        }
        p = p * 2;
        k = k + 1;
    }
    (p, k)
}

/// The inputs padded to `size` packed rows by repeating the first one.
pub open spec fn padded_inputs(inputs: Seq<PackedInputType>, size: nat) -> Seq<PackedInputType> {
    Seq::new(size, |i: int| if i < inputs.len() { inputs[i] } else { inputs[0] })
}

/// The round input of row `r` of the padded trace.
pub open spec fn row_input(inputs: Seq<PackedInputType>, size: nat, r: int) -> BlakeRoundInput {
    padded_inputs(inputs, size)[r / 16][r % 16]
}

/// The last column of row `r`: 1 on the first `n_rows` rows, 0 on padding.
pub open spec fn enabler_at(n_rows: nat, r: int) -> u32 {
    if r < n_rows {
        1
    } else {
        0
    }
}

/// What the interaction phase needs from the trace phase: the number of
/// real rows, the trace size, and the lookup entries of every row.
pub struct InteractionClaimGenerator {
    pub n_rows: usize,
    pub log_size: u32,
    pub lookup_data: Vec<RowLookupData>,
}

impl ClaimGenerator {
    /// The memory the component reads message words from.
    pub open spec fn memory(&self) -> Memory {
        self.state.memory
    }

    /// Every collected input can be processed with the component's memory.
    pub open spec fn inputs_valid(&self) -> bool {
        &&& self.memory().wf()
        &&& forall|i: int, j: int|
            0 <= i < self.packed_inputs@.len() && 0 <= j < 16 ==> valid_input(
                &self.memory(),
                #[trigger] self.packed_inputs@[i][j],
            )
    }

    /// A generator over `memory` with no inputs yet.
    pub fn new(memory: Memory) -> (g: ClaimGenerator)
        ensures
            g.packed_inputs@.len() == 0,
            g.memory() == memory,
    {
        let state = BlakeRound::new(memory);
        ClaimGenerator { packed_inputs: Vec::new(), state }
    }

    /// Whether no input has been collected.
    pub fn is_empty(&self) -> (r: bool)
        ensures
            r == (self.packed_inputs@.len() == 0),
    {
        self.packed_inputs.len() == 0
    }

    /// Appends packed inputs.
    pub fn add_packed_inputs(&mut self, inputs: &[PackedInputType])
        ensures
            final(self).packed_inputs@ == old(self).packed_inputs@ + inputs@,
            final(self).memory() == old(self).memory(),
    {
        let mut i: usize = 0;
        while i < inputs.len()
            invariant
                i <= inputs@.len(),
                self.packed_inputs@ =~= old(self).packed_inputs@ + inputs@.take(i as int),
                self.memory() == old(self).memory(),
            decreases inputs@.len() - i,
        {
            self.packed_inputs.push(inputs[i]);
            i = i + 1;
        }
        assert(inputs@.take(inputs@.len() as int) =~= inputs@);
    }

    /// The outputs of the rounds on each lane of `input`.
    pub fn deduce_output(&self, input: PackedInputType) -> (out: PackedInputType)
        requires
            self.memory().wf(),
            forall|j: int| 0 <= j < 16 ==> valid_input(&self.memory(), #[trigger] input[j]),
        ensures
            forall|j: int| 0 <= j < 16 ==> is_round_output(&self.memory(), input[j], #[trigger] out[j]),
    {
        self.state.deduce_output(&input)
    }

    /// Writes the trace of the collected inputs. The packed inputs are padded
    /// to the next power of two by repeating the first one; row `r` holds the
    /// round on lane `r % 16` of packed input `r / 16`, and its last column is
    /// 1 exactly on the rows of the inputs that were collected. Returns the
    /// claim, the data for the interaction phase, the trace rows, and the
    /// inputs that each row hands to the sub-components.
    pub fn write_trace(self) -> (res: (Claim, InteractionClaimGenerator, Vec<Vec<u32>>, Vec<RowSubComponentInputs>))
        requires
            self.packed_inputs@.len() > 0,
            self.packed_inputs@.len() <= usize::MAX / 64,
            self.inputs_valid(),
        ensures
            ({
                let (claim, interaction, trace, sub_inputs) = res;
                let n = self.packed_inputs@.len();
                let log_packed = (claim.log_size - LOG_N_LANES) as nat;
                let size = pow2(log_packed);
                let mem = self.memory();
                &&& claim.log_size >= LOG_N_LANES
                &&& is_log_next_power_of_two(n, log_packed)
                &&& interaction.n_rows == n * 16
                &&& interaction.log_size == claim.log_size
                &&& trace@.len() == size * 16
                &&& interaction.lookup_data@.len() == size * 16
                &&& sub_inputs@.len() == size * 16
                &&& forall|r: int|
                    0 <= r < size * 16 ==> (#[trigger] trace@[r])@ == trace_row(
                        &mem,
                        row_input(self.packed_inputs@, size, r),
                        enabler_at(n * 16, r),
                    )
                &&& forall|r: int|
                    0 <= r < size * 16 ==> (#[trigger] interaction.lookup_data@[r]).is_row_of(
                        &mem,
                        row_input(self.packed_inputs@, size, r),
                    )
                &&& forall|r: int|
                    0 <= r < size * 16 ==> (#[trigger] sub_inputs@[r]).is_row_of(
                        &mem,
                        row_input(self.packed_inputs@, size, r),
                    )
            }),
    {
        let ghost original = self.packed_inputs@;
        let ClaimGenerator { packed_inputs, state } = self;
        let mut inputs = packed_inputs;
        let n_vec_rows = inputs.len();
        let n_rows = n_vec_rows * N_LANES;
        let (packed_size, log_packed) = next_power_of_two_with_log(n_vec_rows);
        let log_size = log_packed + LOG_N_LANES;
        let first = inputs[0];
        while inputs.len() < packed_size
            invariant
                n_vec_rows == original.len(),
                0 < original.len() <= inputs@.len() <= packed_size,
                first == original[0],
                inputs@ =~= padded_inputs(original, inputs@.len() as nat),
            decreases packed_size - inputs@.len(),
        {
            inputs.push(first);
        }
        let ghost padded = padded_inputs(original, packed_size as nat);
        assert(inputs@ =~= padded);
        let memory = state.memory;
        let total = packed_size * N_LANES;
        let mut trace: Vec<Vec<u32>> = Vec::new();
        let mut lookup_data: Vec<RowLookupData> = Vec::new();
        let mut sub_inputs: Vec<RowSubComponentInputs> = Vec::new();
        let mut r: usize = 0;
        while r < total
            invariant
                r <= total,
                total == packed_size * 16,
                inputs@ == padded,
                padded == padded_inputs(original, packed_size as nat),
                memory.wf(),
                n_rows == original.len() * 16,
                forall|i: int, j: int|
                    0 <= i < original.len() && 0 <= j < 16 ==> valid_input(
                        &memory,
                        #[trigger] original[i][j],
                    ),
                0 < original.len(),
                trace@.len() == r,
                lookup_data@.len() == r,
                sub_inputs@.len() == r,
                forall|q: int|
                    0 <= q < r ==> (#[trigger] trace@[q])@ == trace_row(
                        &memory,
                        row_input(original, packed_size as nat, q),
                        enabler_at(n_rows as nat, q),
                    ),
                forall|q: int|
                    0 <= q < r ==> (#[trigger] lookup_data@[q]).is_row_of(
                        &memory,
                        row_input(original, packed_size as nat, q),
                    ),
                forall|q: int|
                    0 <= q < r ==> (#[trigger] sub_inputs@[q]).is_row_of(
                        &memory,
                        row_input(original, packed_size as nat, q),
                    ),
            decreases total - r,
        {
            let row = r / N_LANES;
            let lane = r % N_LANES;
            let inp = inputs[row][lane];
            assert(inp == row_input(original, packed_size as nat, r as int));
            assert(valid_input(&memory, inp)) by {
                if row < original.len() {
                    assert(valid_input(&memory, original[row as int][lane as int]));
                } else {
                    assert(valid_input(&memory, original[0][lane as int]));
                }
            }
            let enabler: u32 = if r < n_rows {
                1
            } else {
                0
            };
            let w = write_row(&memory, &inp, enabler);
            trace.push(w.trace);
            lookup_data.push(w.lookup_data);
            sub_inputs.push(w.sub_component_inputs);
            r = r + 1;
        }
        let claim = Claim { log_size };
        let interaction = InteractionClaimGenerator { n_rows, log_size, lookup_data };
        (claim, interaction, trace, sub_inputs)
    }
}

/// Row `l` of packed row `i`.
pub open spec fn row_index(i: int, l: int) -> int {
    16 * i + l
}

/// Row `l` of packed row `i` has lane `l` of packed input `i` as input, and
/// is enabled when the packed row holds a collected input.
pub proof fn lemma_row_of_packed_input(inputs: Seq<PackedInputType>, size: nat, i: int, l: int)
    requires
        0 <= i < inputs.len() <= size,
        0 <= l < 16,
    ensures
        row_input(inputs, size, row_index(i, l)) == inputs[i][l],
        enabler_at(inputs.len() * 16, row_index(i, l)) == 1,
{
    let r = row_index(i, l);
    vstd::arithmetic::div_mod::lemma_div_multiples_vanish_fancy(i, l, 16);
    vstd::arithmetic::div_mod::lemma_mod_multiples_vanish(i, l, 16);
    vstd::arithmetic::div_mod::lemma_small_mod(l as nat, 16);
    vstd::arithmetic::mul::lemma_mul_is_commutative(16, i);
    assert(r / 16 == i && r % 16 == l);
    assert(padded_inputs(inputs, size)[i] == inputs[i]);
    assert(r < inputs.len() * 16) by (nonlinear_arith)
        requires
            r == 16 * i + l,
            l < 16,
            i < inputs.len(),
    ;
}

/// Every row is computed from its own input and enabler alone: when the
/// packed inputs of a second call are those of a first call permuted by `pi`,
/// the rows of packed row `i` in the second call have the same trace columns,
/// lookup entries and sub-component inputs, as `write_trace` states them, as
/// the rows of packed row `pi(i)` in the first; all these rows are enabled.
pub proof fn lemma_permuted_inputs_permute_rows(
    mem: &Memory,
    inputs1: Seq<PackedInputType>,
    inputs2: Seq<PackedInputType>,
    pi: spec_fn(int) -> int,
    size: nat,
    i: int,
    l: int,
)
    requires
        inputs1.len() == inputs2.len(),
        inputs1.len() <= size,
        forall|k: int|
            0 <= k < inputs2.len() ==> 0 <= #[trigger] pi(k) < inputs1.len() && inputs2[k]
                == inputs1[pi(k)],
        0 <= i < inputs2.len(),
        0 <= l < 16,
    ensures
        ({
            let n = inputs1.len() * 16;
            let inp2 = row_input(inputs2, size, row_index(i, l));
            let inp1 = row_input(inputs1, size, row_index(pi(i), l));
            &&& inp2 == inp1
            &&& enabler_at(n, row_index(i, l)) == 1
            &&& enabler_at(n, row_index(pi(i), l)) == 1
            &&& trace_row(mem, inp2, enabler_at(n, row_index(i, l))) == trace_row(
                mem,
                inp1,
                enabler_at(n, row_index(pi(i), l)),
            )
            &&& forall|d: RowLookupData| #[trigger]
                d.is_row_of(mem, inp2) <==> d.is_row_of(mem, inp1)
            &&& forall|d: RowSubComponentInputs| #[trigger]
                d.is_row_of(mem, inp2) <==> d.is_row_of(mem, inp1)
        }),
{
    lemma_row_of_packed_input(inputs2, size, i, l);
    lemma_row_of_packed_input(inputs1, size, pi(i), l);
    let n = inputs1.len() * 16;
    let inp2 = row_input(inputs2, size, row_index(i, l));
    let inp1 = row_input(inputs1, size, row_index(pi(i), l));
    assert(inp2 == inp1);
    assert(enabler_at(n, row_index(i, l)) == enabler_at(n, row_index(pi(i), l)));
}

} // verus!
