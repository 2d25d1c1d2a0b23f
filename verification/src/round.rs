//! One row of the round component: the round's input, its message schedule,
//! the sixteen message words read from memory, the eight G steps, and the
//! round's output.

use vstd::prelude::*;
use crate::blake::{N_SIGMA_ROUNDS, lemma_g_step, blake2s_round, g_spec, g_step, sigma_seq};
use crate::m31::{is_m31, m31, m31_add};
use crate::memory::Memory;
use crate::message::{
    WordRead, address_to_id_entry, id_to_big_entry, range_check_entry, read_message_word,
    spec_word_read,
};

verus! {

/// Number of trace columns of a row.
pub const N_TRACE_COLUMNS: usize = 212;

/// The input of one Blake2s round: an id of the hash computation, the round
/// number, the 16-word state, and the address of the 16 message words.
#[derive(Clone, Copy, Debug, PartialEq, Eq)]
pub struct BlakeRoundInput {
    pub id: u32,
    pub round: u32,
    pub state: [u32; 16],
    pub message_ptr: u32,
}

/// The 16-bit half `h` (0 low, 1 high) of a word.
pub open spec fn half(w: u32, h: int) -> u32 {
    if h == 0 {
        w % 65536
    } else {
        w / 65536
    }
}

/// Word `i` of a G output.
pub open spec fn quad_at(q: (u32, u32, u32, u32), i: int) -> u32 {
    if i == 0 {
        q.0
    } else if i == 1 {
        q.1
    } else if i == 2 {
        q.2
    } else {
        q.3
    }
}

/// Word `i` of a G input (four state words, two message words).
pub open spec fn six_at(s: (u32, u32, u32, u32, u32, u32), i: int) -> u32 {
    if i == 0 {
        s.0
    } else if i == 1 {
        s.1
    } else if i == 2 {
        s.2
    } else if i == 3 {
        s.3
    } else if i == 4 {
        s.4
    } else {
        s.5
    }
}

/// Address of the `k`-th message word that the round reads: the message
/// pointer plus entry `k` of the round's schedule, in the field.
pub open spec fn message_address(inp: BlakeRoundInput, k: int) -> u32 {
    m31(inp.message_ptr + sigma_seq(inp.round as int)[k])
}

/// The sixteen reads of a round, in schedule order.
pub open spec fn spec_reads(mem: &Memory, inp: BlakeRoundInput) -> Seq<WordRead> {
    Seq::new(16, |k: int| spec_word_read(mem, message_address(inp, k)))
}

/// The input is one that a round can process: its field entries are field
/// elements, its round number has a schedule, and memory holds a value at
/// each of the addresses the round reads.
pub open spec fn valid_input(mem: &Memory, inp: BlakeRoundInput) -> bool {
    &&& is_m31(inp.id)
    &&& inp.round < N_SIGMA_ROUNDS
    &&& is_m31(inp.message_ptr)
    &&& forall|k: int| 0 <= k < 16 ==> #[trigger] mem.has_address(message_address(inp, k))
}

/// Arguments of G step `j` (0..4 columns, 4..8 diagonals), given the
/// state, the words read in schedule order, and the outputs of the column steps.
pub open spec fn g_args(
    v: Seq<u32>,
    w: Seq<u32>,
    cols: Seq<(u32, u32, u32, u32)>,
    j: int,
) -> (u32, u32, u32, u32, u32, u32) {
    if j < 4 {
        (v[j], v[j + 4], v[j + 8], v[j + 12], w[2 * j], w[2 * j + 1])
    } else {
        let k = j - 4;
        (
            cols[k].0,
            cols[(k + 1) % 4].1,
            cols[(k + 2) % 4].2,
            cols[(k + 3) % 4].3,
            w[2 * j],
            w[2 * j + 1],
        )
    }
}

/// Outputs of the four column steps.
pub open spec fn column_outputs(v: Seq<u32>, w: Seq<u32>) -> Seq<(u32, u32, u32, u32)> {
    Seq::new(
        4,
        |j: int|
            {
                let a = g_args(v, w, Seq::empty(), j);
                g_spec(a.0, a.1, a.2, a.3, a.4, a.5)
            },
    )
}

/// Outputs of all eight G steps: four columns, then four diagonals.
pub open spec fn g_outputs(v: Seq<u32>, w: Seq<u32>) -> Seq<(u32, u32, u32, u32)> {
    let cols = column_outputs(v, w);
    Seq::new(
        8,
        |j: int|
            if j < 4 {
                cols[j]
            } else {
                let a = g_args(v, w, cols, j);
                g_spec(a.0, a.1, a.2, a.3, a.4, a.5)
            },
    )
}

/// The state after the round, gathered from the diagonal steps.
pub open spec fn new_state(outs: Seq<(u32, u32, u32, u32)>) -> Seq<u32> {
    Seq::new(
        16,
        |i: int|
            {
                let q = i / 4;
                let r = i % 4;
                if q == 0 {
                    outs[4 + r].0
                } else if q == 1 {
                    outs[4 + (r + 3) % 4].1
                } else if q == 2 {
                    outs[4 + (r + 2) % 4].2
                } else {
                    outs[4 + (r + 1) % 4].3
                }
            },
    )
}

/// The words a round reads, in schedule order.
pub open spec fn read_words(reads: Seq<WordRead>) -> Seq<u32> {
    reads.map_values(|r: WordRead| r.word)
}

/// Computing the state through the column and diagonal G outputs is one
/// Blake2s round on message `m`, whenever the words read in schedule order
/// are the message words that the schedule picks.
pub proof fn lemma_new_state_is_blake2s_round(v: Seq<u32>, w: Seq<u32>, m: Seq<u32>, s: Seq<u32>)
    requires
        v.len() == 16,
        w.len() == 16,
        m.len() == 16,
        s.len() == 16,
        forall|k: int| 0 <= k < 16 ==> #[trigger] s[k] < 16,
        forall|k: int| 0 <= k < 16 ==> #[trigger] w[k] == m[s[k] as int],
    ensures
        new_state(g_outputs(v, w)) == blake2s_round(v, m, s),
{
    let outs = g_outputs(v, w);
    let cols = column_outputs(v, w);
    let c0 = cols[0];
    let c1 = cols[1];
    let c2 = cols[2];
    let c3 = cols[3];
    assert(c0 == g_spec(v[0], v[4], v[8], v[12], m[s[0] as int], m[s[1] as int]));
    assert(c1 == g_spec(v[1], v[5], v[9], v[13], m[s[2] as int], m[s[3] as int]));
    assert(c2 == g_spec(v[2], v[6], v[10], v[14], m[s[4] as int], m[s[5] as int]));
    assert(c3 == g_spec(v[3], v[7], v[11], v[15], m[s[6] as int], m[s[7] as int]));
    let v1 = g_step(v, 0, 4, 8, 12, m[s[0] as int], m[s[1] as int]);
    lemma_g_step(v, 0, 4, 8, 12, m[s[0] as int], m[s[1] as int]);
    let v2 = g_step(v1, 1, 5, 9, 13, m[s[2] as int], m[s[3] as int]);
    lemma_g_step(v1, 1, 5, 9, 13, m[s[2] as int], m[s[3] as int]);
    let v3 = g_step(v2, 2, 6, 10, 14, m[s[4] as int], m[s[5] as int]);
    lemma_g_step(v2, 2, 6, 10, 14, m[s[4] as int], m[s[5] as int]);
    let v4 = g_step(v3, 3, 7, 11, 15, m[s[6] as int], m[s[7] as int]);
    lemma_g_step(v3, 3, 7, 11, 15, m[s[6] as int], m[s[7] as int]);
    let after_columns = seq![
        c0.0, c1.0, c2.0, c3.0, c0.1, c1.1, c2.1, c3.1,
        c0.2, c1.2, c2.2, c3.2, c0.3, c1.3, c2.3, c3.3,
    ];
    assert(v4 =~= after_columns);
    let d0 = outs[4];
    let d1 = outs[5];
    let d2 = outs[6];
    let d3 = outs[7];
    assert(d0 == g_spec(c0.0, c1.1, c2.2, c3.3, m[s[8] as int], m[s[9] as int]));
    assert(d1 == g_spec(c1.0, c2.1, c3.2, c0.3, m[s[10] as int], m[s[11] as int]));
    assert(d2 == g_spec(c2.0, c3.1, c0.2, c1.3, m[s[12] as int], m[s[13] as int]));
    assert(d3 == g_spec(c3.0, c0.1, c1.2, c2.3, m[s[14] as int], m[s[15] as int]));
    let v5 = g_step(v4, 0, 5, 10, 15, m[s[8] as int], m[s[9] as int]);
    lemma_g_step(v4, 0, 5, 10, 15, m[s[8] as int], m[s[9] as int]);
    let v6 = g_step(v5, 1, 6, 11, 12, m[s[10] as int], m[s[11] as int]);
    lemma_g_step(v5, 1, 6, 11, 12, m[s[10] as int], m[s[11] as int]);
    let v7 = g_step(v6, 2, 7, 8, 13, m[s[12] as int], m[s[13] as int]);
    lemma_g_step(v6, 2, 7, 8, 13, m[s[12] as int], m[s[13] as int]);
    let v8 = g_step(v7, 3, 4, 9, 14, m[s[14] as int], m[s[15] as int]);
    lemma_g_step(v7, 3, 4, 9, 14, m[s[14] as int], m[s[15] as int]);
    let expected = seq![
        d0.0, d1.0, d2.0, d3.0, d3.1, d0.1, d1.1, d2.1,
        d2.2, d3.2, d0.2, d1.2, d1.3, d2.3, d3.3, d0.3,
    ];
    assert(v8 =~= expected);
    assert(new_state(outs) =~= expected);
}

/// The contents of a sequence of vectors.
pub open spec fn views(v: Seq<Vec<u32>>) -> Seq<Seq<u32>> {
    v.map_values(|e: Vec<u32>| e@)
}

/// A G output held as an array.
pub open spec fn quad_of(a: [u32; 4]) -> (u32, u32, u32, u32) {
    (a[0], a[1], a[2], a[3])
}

/// A G input held as an array.
pub open spec fn six_of(a: [u32; 6]) -> (u32, u32, u32, u32, u32, u32) {
    (a[0], a[1], a[2], a[3], a[4], a[5])
}

/// Column `i` (0..6) of a word read: low half, high half, the three
/// verification pieces, and the id.
pub open spec fn read_column(r: WordRead, i: int) -> u32 {
    if i == 0 {
        r.low_16_bits
    } else if i == 1 {
        r.high_16_bits
    } else if i == 2 {
        r.low_7_ms_bits
    } else if i == 3 {
        r.high_14_ms_bits
    } else if i == 4 {
        r.high_5_ms_bits
    } else {
        r.id
    }
}

/// Column `c` (0..35) of a round input or output as the trace lays it
/// out: id, round, the 16 state words as low and high halves, message pointer.
pub open spec fn state_column(id: u32, round: u32, state: Seq<u32>, ptr: u32, c: int) -> u32 {
    if c == 0 {
        id
    } else if c == 1 {
        round
    } else if c < 34 {
        half(state[(c - 2) / 2], (c - 2) % 2)
    } else {
        ptr
    }
}

/// The 35 columns of a round input.
pub open spec fn input_columns(inp: BlakeRoundInput) -> Seq<u32> {
    Seq::new(35, |c: int| state_column(inp.id, inp.round, inp.state@, inp.message_ptr, c))
}

/// The 35 columns of the round's output: the next round number and the new
/// state.
pub open spec fn output_columns(mem: &Memory, inp: BlakeRoundInput) -> Seq<u32> {
    let state = new_state(spec_g_outputs(mem, inp));
    Seq::new(35, |c: int| state_column(inp.id, m31(inp.round + 1), state, inp.message_ptr, c))
}

/// Column `c` of a trace row, given the row's reads and G outputs:
/// 0..35 the input, 35..51 the schedule, 51..147 six columns per read,
/// 147..211 the halves of the four words of each G output, 211 the enabler.
pub open spec fn row_column(
    inp: BlakeRoundInput,
    reads: Seq<WordRead>,
    outs: Seq<(u32, u32, u32, u32)>,
    enabler: u32,
    c: int,
) -> u32 {
    if c < 35 {
        input_columns(inp)[c]
    } else if c < 51 {
        sigma_seq(inp.round as int)[c - 35]
    } else if c < 147 {
        read_column(reads[(c - 51) / 6], (c - 51) % 6)
    } else if c < 211 {
        half(quad_at(outs[(c - 147) / 8], ((c - 147) % 8) / 2), (c - 147) % 2)
    } else {
        enabler
    }
}

/// The G outputs of the round on `inp`.
pub open spec fn spec_g_outputs(mem: &Memory, inp: BlakeRoundInput) -> Seq<(u32, u32, u32, u32)> {
    g_outputs(inp.state@, read_words(spec_reads(mem, inp)))
}

/// The G inputs of the round on `inp`.
pub open spec fn spec_g_args(mem: &Memory, inp: BlakeRoundInput) -> Seq<(u32, u32, u32, u32, u32, u32)> {
    let w = read_words(spec_reads(mem, inp));
    let cols = column_outputs(inp.state@, w);
    Seq::new(8, |j: int| g_args(inp.state@, w, cols, j))
}

/// The trace row of the round on `inp`.
pub open spec fn trace_row(mem: &Memory, inp: BlakeRoundInput, enabler: u32) -> Seq<u32> {
    Seq::new(
        212,
        |c: int| row_column(inp, spec_reads(mem, inp), spec_g_outputs(mem, inp), enabler, c),
    )
}

/// The output of the round on `inp`: same id and message pointer, the next
/// round number, and the new state.
pub open spec fn is_round_output(mem: &Memory, inp: BlakeRoundInput, out: BlakeRoundInput) -> bool {
    &&& out.id == inp.id
    &&& out.round == m31(inp.round + 1)
    &&& out.state@ == new_state(spec_g_outputs(mem, inp))
    &&& out.message_ptr == inp.message_ptr
}

/// The lookup entry of a G step: the halves of its four state words, the
/// low and high columns of the reads of its two message words, then the
/// halves of its four output words.
pub open spec fn blake_g_entry(
    args: (u32, u32, u32, u32, u32, u32),
    out: (u32, u32, u32, u32),
    m0: WordRead,
    m1: WordRead,
) -> Seq<u32> {
    Seq::new(
        20,
        |c: int|
            if c < 8 {
                half(six_at(args, c / 2), c % 2)
            } else if c < 10 {
                read_column(m0, c - 8)
            } else if c < 12 {
                read_column(m1, c - 10)
            } else {
                half(quad_at(out, (c - 12) / 2), (c - 12) % 2)
            },
    )
}

/// Reads the sixteen message words of the round, in schedule order.
fn read_round_words(mem: &Memory, inp: &BlakeRoundInput, sigma: &[u32; 16]) -> (reads: Vec<WordRead>)
    requires
        mem.wf(),
        valid_input(mem, *inp),
        sigma@ == sigma_seq(inp.round as int),
    ensures
        reads@ == spec_reads(mem, *inp),
        forall|k: int| 0 <= k < 16 ==> (#[trigger] reads@[k]).wf(),
{
    proof {
        crate::blake::lemma_sigma_is_permutation(inp.round as int);
    }
    let mut reads: Vec<WordRead> = Vec::new();
    let mut k: usize = 0;
    while k < 16
        invariant
            k <= 16,
            mem.wf(),
            valid_input(mem, *inp),
            sigma@ == sigma_seq(inp.round as int),
            sigma_seq(inp.round as int).len() == 16,
            forall|i: int| 0 <= i < 16 ==> #[trigger] sigma_seq(inp.round as int)[i] < 16,
            reads@ =~= spec_reads(mem, *inp).take(k as int),
            forall|i: int| 0 <= i < k ==> (#[trigger] reads@[i]).wf(),
        decreases 16 - k,
    {
        assert(sigma[k as int] < 16);
        let address = m31_add(inp.message_ptr, sigma[k]);
        assert(address == message_address(*inp, k as int));
        assert(mem.has_address(message_address(*inp, k as int)));
        let r = read_message_word(mem, address);
        reads.push(r);
        k = k + 1;
    }
    assert(reads@ =~= spec_reads(mem, *inp));
    reads
}

/// Runs the eight G steps of the round: returns the inputs and the outputs
/// of each step.
fn round_g_steps(state: &[u32; 16], reads: &Vec<WordRead>) -> (res: (Vec<[u32; 6]>, Vec<[u32; 4]>))
    requires
        reads@.len() == 16,
    ensures
        res.0@.len() == 8,
        res.1@.len() == 8,
        forall|j: int|
            0 <= j < 8 ==> six_of(#[trigger] res.0@[j]) == g_args(
                state@,
                read_words(reads@),
                column_outputs(state@, read_words(reads@)),
                j,
            ),
        forall|j: int|
            0 <= j < 8 ==> quad_of(#[trigger] res.1@[j]) == g_outputs(state@, read_words(reads@))[j],
{
    let ghost v = state@;
    let ghost w = read_words(reads@);
    let ghost cols = column_outputs(v, w);
    let ghost outs = g_outputs(v, w);
    let mut words: [u32; 16] = [0u32; 16];
    let mut k: usize = 0;
    while k < 16
        invariant
            k <= 16,
            reads@.len() == 16,
            w == read_words(reads@),
            w.len() == 16,
            forall|i: int| 0 <= i < k ==> #[trigger] words@[i] == w[i],
        decreases 16 - k,
    {
        words[k] = reads[k].word;
        k = k + 1;
    }
    let a0 = [state[0], state[4], state[8], state[12], words[0], words[1]];
    let a1 = [state[1], state[5], state[9], state[13], words[2], words[3]];
    let a2 = [state[2], state[6], state[10], state[14], words[4], words[5]];
    let a3 = [state[3], state[7], state[11], state[15], words[6], words[7]];
    let c0 = crate::blake::blake_g(a0[0], a0[1], a0[2], a0[3], a0[4], a0[5]);
    let c1 = crate::blake::blake_g(a1[0], a1[1], a1[2], a1[3], a1[4], a1[5]);
    let c2 = crate::blake::blake_g(a2[0], a2[1], a2[2], a2[3], a2[4], a2[5]);
    let c3 = crate::blake::blake_g(a3[0], a3[1], a3[2], a3[3], a3[4], a3[5]);
    assert(six_of(a0) == g_args(v, w, cols, 0));
    assert(six_of(a1) == g_args(v, w, cols, 1));
    assert(six_of(a2) == g_args(v, w, cols, 2));
    assert(six_of(a3) == g_args(v, w, cols, 3));
    assert(quad_of(c0) == cols[0]);
    assert(quad_of(c1) == cols[1]);
    assert(quad_of(c2) == cols[2]);
    assert(quad_of(c3) == cols[3]);
    let a4 = [c0[0], c1[1], c2[2], c3[3], words[8], words[9]];
    let a5 = [c1[0], c2[1], c3[2], c0[3], words[10], words[11]];
    let a6 = [c2[0], c3[1], c0[2], c1[3], words[12], words[13]];
    let a7 = [c3[0], c0[1], c1[2], c2[3], words[14], words[15]];
    assert(six_of(a4) == g_args(v, w, cols, 4));
    assert(six_of(a5) == g_args(v, w, cols, 5));
    assert(six_of(a6) == g_args(v, w, cols, 6));
    assert(six_of(a7) == g_args(v, w, cols, 7));
    let d0 = crate::blake::blake_g(a4[0], a4[1], a4[2], a4[3], a4[4], a4[5]);
    let d1 = crate::blake::blake_g(a5[0], a5[1], a5[2], a5[3], a5[4], a5[5]);
    let d2 = crate::blake::blake_g(a6[0], a6[1], a6[2], a6[3], a6[4], a6[5]);
    let d3 = crate::blake::blake_g(a7[0], a7[1], a7[2], a7[3], a7[4], a7[5]);
    let args = vec![a0, a1, a2, a3, a4, a5, a6, a7];
    let results = vec![c0, c1, c2, c3, d0, d1, d2, d3];
    assert forall|j: int| 0 <= j < 8 implies six_of(#[trigger] args@[j]) == g_args(v, w, cols, j) by {
    }
    assert forall|j: int| 0 <= j < 8 implies quad_of(#[trigger] results@[j]) == outs[j] by {
    }
    (args, results)
}

/// The 35 columns of a round input or output: id, round, the state words
/// as low and high halves, message pointer.
fn state_values(id: u32, round: u32, state: &[u32; 16], ptr: u32) -> (v: Vec<u32>)
    ensures
        v@ == Seq::new(35, |c: int| state_column(id, round, state@, ptr, c)),
{
    let mut v: Vec<u32> = Vec::new();
    v.push(id);
    v.push(round);
    let mut j: usize = 0;
    while j < 16
        invariant
            j <= 16,
            v@.len() == 2 + 2 * j,
            forall|c: int| 0 <= c < v@.len() ==> #[trigger] v@[c] == state_column(id, round, state@, ptr, c),
        decreases 16 - j,
    {
        let w = state[j];
        v.push(w % 65536);
        v.push(w / 65536);
        assert((2 + 2 * j - 2) / 2 == j && (2 + 2 * j - 2) % 2 == 0);
        assert((3 + 2 * j - 2) / 2 == j && (3 + 2 * j - 2) % 2 == 1);
        j = j + 1;
    }
    v.push(ptr);
    assert(v@ =~= Seq::new(35, |c: int| state_column(id, round, state@, ptr, c)));
    v
}

/// The trace row from the row's schedule, reads and G outputs.
fn trace_values(
    inp: &BlakeRoundInput,
    sigma: &[u32; 16],
    reads: &Vec<WordRead>,
    outs: &Vec<[u32; 4]>,
    Ghost(outs_s): Ghost<Seq<(u32, u32, u32, u32)>>,
    enabler: u32,
) -> (t: Vec<u32>)
    requires
        sigma@ == sigma_seq(inp.round as int),
        reads@.len() == 16,
        outs@.len() == 8,
        outs_s.len() == 8,
        forall|j: int| 0 <= j < 8 ==> quad_of(#[trigger] outs@[j]) == outs_s[j],
    ensures
        t@ == Seq::new(212, |c: int| row_column(*inp, reads@, outs_s, enabler, c)),
{
    let ghost spec_row = Seq::new(212, |c: int| row_column(*inp, reads@, outs_s, enabler, c));
    let mut t = state_values(inp.id, inp.round, &inp.state, inp.message_ptr);
    assert forall|c: int| 0 <= c < t@.len() implies #[trigger] t@[c] == spec_row[c] by {
    }
    let mut k: usize = 0;
    while k < 16
        invariant
            k <= 16,
            sigma@ == sigma_seq(inp.round as int),
            spec_row == Seq::new(212, |c: int| row_column(*inp, reads@, outs_s, enabler, c)),
            t@.len() == 35 + k,
            forall|c: int| 0 <= c < t@.len() ==> #[trigger] t@[c] == spec_row[c],
        decreases 16 - k,
    {
        t.push(sigma[k]);
        k = k + 1;
    }
    let mut k: usize = 0;
    while k < 16
        invariant
            k <= 16,
            reads@.len() == 16,
            spec_row == Seq::new(212, |c: int| row_column(*inp, reads@, outs_s, enabler, c)),
            t@.len() == 51 + 6 * k,
            forall|c: int| 0 <= c < t@.len() ==> #[trigger] t@[c] == spec_row[c],
        decreases 16 - k,
    {
        let r = reads[k];
        let base = t.len();
        t.push(r.low_16_bits);
        t.push(r.high_16_bits);
        t.push(r.low_7_ms_bits);
        t.push(r.high_14_ms_bits);
        t.push(r.high_5_ms_bits);
        t.push(r.id);
        assert forall|c: int| 0 <= c < t@.len() implies #[trigger] t@[c] == spec_row[c] by {
            if c >= base {
                assert((c - 51) / 6 == k && (c - 51) % 6 == c - base);
            }
        }
        k = k + 1;
    }
    let mut j: usize = 0;
    while j < 8
        invariant
            j <= 8,
            outs@.len() == 8,
            outs_s.len() == 8,
            forall|i: int| 0 <= i < 8 ==> quad_of(#[trigger] outs@[i]) == outs_s[i],
            spec_row == Seq::new(212, |c: int| row_column(*inp, reads@, outs_s, enabler, c)),
            t@.len() == 147 + 8 * j,
            forall|c: int| 0 <= c < t@.len() ==> #[trigger] t@[c] == spec_row[c],
        decreases 8 - j,
    {
        let o = outs[j];
        let base = t.len();
        assert(quad_of(o) == outs_s[j as int]);
        t.push(o[0] % 65536);
        t.push(o[0] / 65536);
        t.push(o[1] % 65536);
        t.push(o[1] / 65536);
        t.push(o[2] % 65536);
        t.push(o[2] / 65536);
        t.push(o[3] % 65536);
        t.push(o[3] / 65536);
        assert forall|c: int| 0 <= c < t@.len() implies #[trigger] t@[c] == spec_row[c] by {
            if c >= base {
                assert((c - 147) / 8 == j && (c - 147) % 8 == c - base);
            }
        }
        j = j + 1;
    }
    t.push(enabler);
    assert(t@ =~= spec_row);
    t
}

/// The state after the round, from the outputs of the eight G steps.
fn state_after(outs: &Vec<[u32; 4]>, Ghost(outs_s): Ghost<Seq<(u32, u32, u32, u32)>>) -> (st: [u32; 16])
    requires
        outs@.len() == 8,
        outs_s.len() == 8,
        forall|j: int| 0 <= j < 8 ==> quad_of(#[trigger] outs@[j]) == outs_s[j],
    ensures
        st@ == new_state(outs_s),
{
    let d0 = outs[4];
    let d1 = outs[5];
    let d2 = outs[6];
    let d3 = outs[7];
    assert(quad_of(d0) == outs_s[4] && quad_of(d1) == outs_s[5]);
    assert(quad_of(d2) == outs_s[6] && quad_of(d3) == outs_s[7]);
    let st = [
        d0[0], d1[0], d2[0], d3[0], d3[1], d0[1], d1[1], d2[1],
        d2[2], d3[2], d0[2], d1[2], d1[3], d2[3], d3[3], d0[3],
    ];
    assert(st@ =~= new_state(outs_s));
    st
}

/// The output of one round: same id and message pointer, the next round
/// number, and the state after reading the message words through the
/// round's schedule and running the eight G steps.
pub fn deduce_round_output(mem: &Memory, inp: &BlakeRoundInput) -> (out: BlakeRoundInput)
    requires
        mem.wf(),
        valid_input(mem, *inp),
    ensures
        is_round_output(mem, *inp, out),
{
    let sigma = crate::blake::blake_round_sigma(inp.round);
    let reads = read_round_words(mem, inp, &sigma);
    let (_args, outs) = round_g_steps(&inp.state, &reads);
    let state = state_after(&outs, Ghost(spec_g_outputs(mem, *inp)));
    BlakeRoundInput {
        id: inp.id,
        round: m31_add(inp.round, 1),
        state,
        message_ptr: inp.message_ptr,
    }
}

/// The lookup entries that one row emits, by relation.
pub struct RowLookupData {
    /// The round number and its schedule.
    pub blake_round_sigma_0: Vec<u32>,
    /// Per read: the 7/2/5-bit pieces.
    pub range_check_7_2_5: Vec<Vec<u32>>,
    /// Per read: address and id.
    pub memory_address_to_id: Vec<Vec<u32>>,
    /// Per read: id and limbs.
    pub memory_id_to_big: Vec<Vec<u32>>,
    /// Per G step: halves of its inputs and outputs.
    pub blake_g: Vec<Vec<u32>>,
    /// The round's input.
    pub blake_round_0: Vec<u32>,
    /// The round's output.
    pub blake_round_1: Vec<u32>,
}

/// The inputs that one row hands to the sub-components.
pub struct RowSubComponentInputs {
    /// The round number, for the schedule table.
    pub blake_round_sigma: u32,
    /// Per read: the 7/2/5-bit pieces.
    pub range_check_7_2_5: Vec<Vec<u32>>,
    /// Per read: the address.
    pub memory_address_to_id: Vec<u32>,
    /// Per read: the id.
    pub memory_id_to_big: Vec<u32>,
    /// Per G step: its four state words and two message words.
    pub blake_g: Vec<[u32; 6]>,
}

/// Everything one row of the component holds.
pub struct RowWitness {
    pub trace: Vec<u32>,
    pub lookup_data: RowLookupData,
    pub sub_component_inputs: RowSubComponentInputs,
}

impl RowLookupData {
    /// The entries are those of the round on `inp`.
    pub open spec fn is_row_of(&self, mem: &Memory, inp: BlakeRoundInput) -> bool {
        let reads = spec_reads(mem, inp);
        &&& self.blake_round_sigma_0@ == seq![inp.round] + sigma_seq(inp.round as int)
        &&& views(self.range_check_7_2_5@) == reads.map_values(|r: WordRead| range_check_entry(r))
        &&& views(self.memory_address_to_id@) == reads.map_values(
            |r: WordRead| address_to_id_entry(r),
        )
        &&& views(self.memory_id_to_big@) == reads.map_values(|r: WordRead| id_to_big_entry(r))
        &&& views(self.blake_g@) == Seq::new(
            8,
            |j: int|
                blake_g_entry(
                    spec_g_args(mem, inp)[j],
                    spec_g_outputs(mem, inp)[j],
                    reads[2 * j],
                    reads[2 * j + 1],
                ),
        )
        &&& self.blake_round_0@ == input_columns(inp)
        &&& self.blake_round_1@ == output_columns(mem, inp)
    }
}

impl RowSubComponentInputs {
    /// The inputs are those of the round on `inp`.
    pub open spec fn is_row_of(&self, mem: &Memory, inp: BlakeRoundInput) -> bool {
        let reads = spec_reads(mem, inp);
        &&& self.blake_round_sigma == inp.round
        &&& views(self.range_check_7_2_5@) == reads.map_values(|r: WordRead| range_check_entry(r))
        &&& self.memory_address_to_id@ == reads.map_values(|r: WordRead| r.address)
        &&& self.memory_id_to_big@ == reads.map_values(|r: WordRead| r.id)
        &&& self.blake_g@.map_values(|a: [u32; 6]| six_of(a)) == spec_g_args(mem, inp)
    }
}

/// The entries of the read-dependent lookups and sub-component inputs.
fn read_entries(reads: &Vec<WordRead>) -> (res: (Vec<Vec<u32>>, Vec<Vec<u32>>, Vec<Vec<u32>>, Vec<u32>, Vec<u32>))
    requires
        forall|k: int| 0 <= k < reads@.len() ==> (#[trigger] reads@[k]).wf(),
    ensures
        views(res.0@) == reads@.map_values(|r: WordRead| range_check_entry(r)),
        views(res.1@) == reads@.map_values(|r: WordRead| address_to_id_entry(r)),
        views(res.2@) == reads@.map_values(|r: WordRead| id_to_big_entry(r)),
        res.3@ == reads@.map_values(|r: WordRead| r.address),
        res.4@ == reads@.map_values(|r: WordRead| r.id),
{
    let mut range_checks: Vec<Vec<u32>> = Vec::new();
    let mut address_to_ids: Vec<Vec<u32>> = Vec::new();
    let mut id_to_bigs: Vec<Vec<u32>> = Vec::new();
    let mut addresses: Vec<u32> = Vec::new();
    let mut ids: Vec<u32> = Vec::new();
    let mut k: usize = 0;
    while k < reads.len()
        invariant
            k <= reads@.len(),
            forall|i: int| 0 <= i < reads@.len() ==> (#[trigger] reads@[i]).wf(),
            range_checks@.len() == k,
            address_to_ids@.len() == k,
            id_to_bigs@.len() == k,
            views(range_checks@) =~= reads@.take(k as int).map_values(
                |r: WordRead| range_check_entry(r),
            ),
            views(address_to_ids@) =~= reads@.take(k as int).map_values(
                |r: WordRead| address_to_id_entry(r),
            ),
            views(id_to_bigs@) =~= reads@.take(k as int).map_values(
                |r: WordRead| id_to_big_entry(r),
            ),
            addresses@ =~= reads@.take(k as int).map_values(|r: WordRead| r.address),
            ids@ =~= reads@.take(k as int).map_values(|r: WordRead| r.id),
        decreases reads@.len() - k,
    {
        let r = &reads[k];
        let rc = r.range_check_values();
        let a2i = r.address_to_id_values();
        let i2b = r.id_to_big_values();
        let ghost old_rc = range_checks@;
        let ghost old_a2i = address_to_ids@;
        let ghost old_i2b = id_to_bigs@;
        range_checks.push(rc);
        address_to_ids.push(a2i);
        id_to_bigs.push(i2b);
        addresses.push(r.address);
        ids.push(r.id);
        assert(range_checks@ == old_rc.push(rc));
        assert(address_to_ids@ == old_a2i.push(a2i));
        assert(reads@.take(k + 1) =~= reads@.take(k as int).push(*r));
        assert(views(range_checks@) =~= views(old_rc).push(rc@));
        assert(views(address_to_ids@) =~= views(old_a2i).push(a2i@));
        assert(views(id_to_bigs@) =~= views(old_i2b).push(i2b@));
        k = k + 1;
    }
    assert(reads@.take(reads@.len() as int) =~= reads@);
    (range_checks, address_to_ids, id_to_bigs, addresses, ids)
}

/// The lookup entry of one G step.
fn blake_g_values(a: &[u32; 6], o: &[u32; 4], m0: &WordRead, m1: &WordRead) -> (e: Vec<u32>)
    ensures
        e@ == blake_g_entry(six_of(*a), quad_of(*o), *m0, *m1),
{
    let ghost spec_e = blake_g_entry(six_of(*a), quad_of(*o), *m0, *m1);
    let mut e: Vec<u32> = Vec::new();
    let mut i: usize = 0;
    while i < 4
        invariant
            i <= 4,
            spec_e == blake_g_entry(six_of(*a), quad_of(*o), *m0, *m1),
            e@.len() == 2 * i,
            forall|c: int| 0 <= c < e@.len() ==> #[trigger] e@[c] == spec_e[c],
        decreases 4 - i,
    {
        e.push(a[i] % 65536);
        e.push(a[i] / 65536);
        assert((2 * i) / 2 == i && (2 * i + 1) / 2 == i && (2 * i + 1) % 2 == 1);
        i = i + 1;
    }
    e.push(m0.low_16_bits);
    e.push(m0.high_16_bits);
    e.push(m1.low_16_bits);
    e.push(m1.high_16_bits);
    let mut i: usize = 0;
    while i < 4
        invariant
            i <= 4,
            spec_e == blake_g_entry(six_of(*a), quad_of(*o), *m0, *m1),
            e@.len() == 12 + 2 * i,
            forall|c: int| 0 <= c < e@.len() ==> #[trigger] e@[c] == spec_e[c],
        decreases 4 - i,
    {
        e.push(o[i] % 65536);
        e.push(o[i] / 65536);
        assert((2 * i) / 2 == i && (2 * i + 1) / 2 == i && (2 * i + 1) % 2 == 1);
        i = i + 1;
    }
    assert(e@ =~= spec_e);
    e
}

/// Computes one row of the component: the trace columns, the lookup entries
/// and the sub-component inputs of the round on `inp`, with `enabler` as the
/// last column (1 on rows that hold a real input, 0 on padding rows).
pub fn write_row(mem: &Memory, inp: &BlakeRoundInput, enabler: u32) -> (w: RowWitness)
    requires
        mem.wf(),
        valid_input(mem, *inp),
    ensures
        w.trace@ == trace_row(mem, *inp, enabler),
        w.lookup_data.is_row_of(mem, *inp),
        w.sub_component_inputs.is_row_of(mem, *inp),
{
    let ghost reads_s = spec_reads(mem, *inp);
    let ghost outs_s = spec_g_outputs(mem, *inp);
    let ghost args_s = spec_g_args(mem, *inp);
    let sigma = crate::blake::blake_round_sigma(inp.round);
    let reads = read_round_words(mem, inp, &sigma);
    let (args, outs) = round_g_steps(&inp.state, &reads);
    assert(outs_s.len() == 8 && args_s.len() == 8);
    let trace = trace_values(inp, &sigma, &reads, &outs, Ghost(outs_s), enabler);
    assert(trace@ =~= trace_row(mem, *inp, enabler));
    let (range_checks, address_to_ids, id_to_bigs, addresses, ids) = read_entries(&reads);
    let mut blake_g: Vec<Vec<u32>> = Vec::new();
    let mut j: usize = 0;
    while j < 8
        invariant
            j <= 8,
            args@.len() == 8,
            outs@.len() == 8,
            outs_s.len() == 8,
            args_s.len() == 8,
            forall|i: int| 0 <= i < 8 ==> quad_of(#[trigger] outs@[i]) == outs_s[i],
            forall|i: int| 0 <= i < 8 ==> six_of(#[trigger] args@[i]) == args_s[i],
            reads@ == reads_s,
            reads_s.len() == 16,
            blake_g@.len() == j,
            views(blake_g@) =~= Seq::new(
                8,
                |i: int| blake_g_entry(args_s[i], outs_s[i], reads_s[2 * i], reads_s[2 * i + 1]),
            ).take(j as int),
        decreases 8 - j,
    {
        let e = blake_g_values(&args[j], &outs[j], &reads[2 * j], &reads[2 * j + 1]);
        let ghost old_g = blake_g@;
        blake_g.push(e);
        assert(views(blake_g@) =~= views(old_g).push(e@));
        j = j + 1;
    }
    let mut sigma_entry: Vec<u32> = Vec::new();
    sigma_entry.push(inp.round);
    let mut k: usize = 0;
    while k < 16
        invariant
            k <= 16,
            sigma@ == sigma_seq(inp.round as int),
            sigma_entry@ =~= (seq![inp.round] + sigma_seq(inp.round as int)).take(k + 1),
        decreases 16 - k,
    {
        sigma_entry.push(sigma[k]);
        k = k + 1;
    }
    let state = state_after(&outs, Ghost(outs_s));
    let round_input = state_values(inp.id, inp.round, &inp.state, inp.message_ptr);
    let round_output = state_values(inp.id, m31_add(inp.round, 1), &state, inp.message_ptr);
    assert(round_output@ =~= output_columns(mem, *inp));
    let lookup_data = RowLookupData {
        blake_round_sigma_0: sigma_entry,
        range_check_7_2_5: range_checks,
        memory_address_to_id: address_to_ids,
        memory_id_to_big: id_to_bigs,
        blake_g,
        blake_round_0: round_input,
        blake_round_1: round_output,
    };
    assert(lookup_data.blake_round_sigma_0@ =~= seq![inp.round] + sigma_seq(inp.round as int));
    assert(views(lookup_data.blake_g@) =~= Seq::new(
        8,
        |j: int|
            blake_g_entry(
                spec_g_args(mem, *inp)[j],
                spec_g_outputs(mem, *inp)[j],
                reads_s[2 * j],
                reads_s[2 * j + 1],
            ),
    ));
    assert(lookup_data.blake_round_0@ =~= input_columns(*inp));
    let range_checks_again = read_entries(&reads).0;
    let sub_component_inputs = RowSubComponentInputs {
        blake_round_sigma: inp.round,
        range_check_7_2_5: range_checks_again,
        memory_address_to_id: addresses,
        memory_id_to_big: ids,
        blake_g: args,
    };
    assert(sub_component_inputs.blake_g@.map_values(|a: [u32; 6]| six_of(a)) =~= args_s);
    RowWitness { trace, lookup_data, sub_component_inputs }
}

/// The 16 message words at `ptr .. ptr + 16`, as the round reads them.
pub open spec fn message_words(mem: &Memory, ptr: u32) -> Seq<u32> {
    Seq::new(16, |j: int| spec_word_read(mem, m31(ptr + j)).word)
}

/// The round output is one Blake2s round: its state is the standard round
/// on the input state, with the message words stored at the message pointer
/// and the schedule of the input's round; the round number advances by one
/// and the id and message pointer stay.
pub proof fn lemma_round_output_is_blake2s_round(mem: &Memory, inp: BlakeRoundInput, out: BlakeRoundInput)
    requires
        valid_input(mem, inp),
        is_round_output(mem, inp, out),
    ensures
        out.state@ == blake2s_round(
            inp.state@,
            message_words(mem, inp.message_ptr),
            sigma_seq(inp.round as int),
        ),
        out.round == inp.round + 1,
        out.id == inp.id,
        out.message_ptr == inp.message_ptr,
{
    let s = sigma_seq(inp.round as int);
    crate::blake::lemma_sigma_is_permutation(inp.round as int);
    let w = read_words(spec_reads(mem, inp));
    let m = message_words(mem, inp.message_ptr);
    assert forall|k: int| 0 <= k < 16 implies #[trigger] w[k] == m[s[k] as int] by {
        assert(s[k] < 16);
    }
    lemma_new_state_is_blake2s_round(inp.state@, w, m, s);
}

/// A row's output lookup holds exactly the columns of the round output:
/// what the trace claims a round yields is what the round computes.
pub proof fn lemma_row_output_is_round_output(
    mem: &Memory,
    inp: BlakeRoundInput,
    lookups: RowLookupData,
    out: BlakeRoundInput,
)
    requires
        lookups.is_row_of(mem, inp),
        is_round_output(mem, inp, out),
    ensures
        lookups.blake_round_1@ == input_columns(out),
        lookups.blake_round_0@ == input_columns(inp),
{
    assert(output_columns(mem, inp) =~= input_columns(out));
}

/// The first 35 trace columns of a row are its input lookup, and each G
/// lookup holds the row's G output columns: the lookups speak of the values
/// the trace holds.
pub proof fn lemma_trace_holds_lookups(mem: &Memory, inp: BlakeRoundInput, lookups: RowLookupData, enabler: u32)
    requires
        lookups.is_row_of(mem, inp),
    ensures
        trace_row(mem, inp, enabler).subrange(0, 35) == lookups.blake_round_0@,
        forall|j: int|
            0 <= j < 8 ==> #[trigger] views(lookups.blake_g@)[j].subrange(12, 20) == trace_row(
                mem,
                inp,
                enabler,
            ).subrange(147 + 8 * j, 155 + 8 * j),
{
    let t = trace_row(mem, inp, enabler);
    assert(t.subrange(0, 35) =~= input_columns(inp));
    assert forall|j: int| 0 <= j < 8 implies #[trigger] views(lookups.blake_g@)[j].subrange(12, 20)
        == t.subrange(147 + 8 * j, 155 + 8 * j) by {
        let e = views(lookups.blake_g@)[j];
        assert forall|i: int| 0 <= i < 8 implies #[trigger] e.subrange(12, 20)[i] == t.subrange(
            147 + 8 * j,
            155 + 8 * j,
        )[i] by {
            assert((147 + 8 * j + i - 147) / 8 == j);
            assert((147 + 8 * j + i - 147) % 8 == i);
        }
        assert(e.subrange(12, 20) =~= t.subrange(147 + 8 * j, 155 + 8 * j));
    }
}

/// The columns of a row besides the reads, stated from the round's input and
/// G outputs: the input id and round number, each state word as its low then
/// its high 16 bits, the message pointer, the round's schedule, each word of
/// each G output as its low then its high 16 bits, and the enabler last.
pub proof fn lemma_trace_layout(mem: &Memory, inp: BlakeRoundInput, enabler: u32)
    ensures
        ({
            let t = trace_row(mem, inp, enabler);
            let outs = spec_g_outputs(mem, inp);
            &&& t.len() == 212
            &&& t[0] == inp.id
            &&& t[1] == inp.round
            &&& forall|i: int|
                0 <= i < 16 ==> t[2 + 2 * i] == #[trigger] inp.state@[i] % 0x1_0000 && t[3 + 2
                    * i] == inp.state@[i] / 0x1_0000
            &&& t[34] == inp.message_ptr
            &&& forall|k: int|
                0 <= k < 16 ==> t[35 + k] == #[trigger] sigma_seq(inp.round as int)[k]
            &&& forall|j: int|
                0 <= j < 8 ==> {
                    let o = #[trigger] outs[j];
                    &&& t[147 + 8 * j] == o.0 % 0x1_0000
                    &&& t[148 + 8 * j] == o.0 / 0x1_0000
                    &&& t[149 + 8 * j] == o.1 % 0x1_0000
                    &&& t[150 + 8 * j] == o.1 / 0x1_0000
                    &&& t[151 + 8 * j] == o.2 % 0x1_0000
                    &&& t[152 + 8 * j] == o.2 / 0x1_0000
                    &&& t[153 + 8 * j] == o.3 % 0x1_0000
                    &&& t[154 + 8 * j] == o.3 / 0x1_0000
                }
            &&& t[211] == enabler
        }),
{
    let t = trace_row(mem, inp, enabler);
    let outs = spec_g_outputs(mem, inp);
    assert forall|i: int| 0 <= i < 16 implies t[2 + 2 * i] == #[trigger] inp.state@[i] % 0x1_0000
        && t[3 + 2 * i] == inp.state@[i] / 0x1_0000 by {
        assert((2 + 2 * i - 2) / 2 == i && (2 + 2 * i - 2) % 2 == 0);
        assert((3 + 2 * i - 2) / 2 == i && (3 + 2 * i - 2) % 2 == 1);
    }
    assert forall|j: int| 0 <= j < 8 implies {
        let o = #[trigger] outs[j];
        &&& t[147 + 8 * j] == o.0 % 0x1_0000
        &&& t[148 + 8 * j] == o.0 / 0x1_0000
        &&& t[149 + 8 * j] == o.1 % 0x1_0000
        &&& t[150 + 8 * j] == o.1 / 0x1_0000
        &&& t[151 + 8 * j] == o.2 % 0x1_0000
        &&& t[152 + 8 * j] == o.2 / 0x1_0000
        &&& t[153 + 8 * j] == o.3 % 0x1_0000
        &&& t[154 + 8 * j] == o.3 / 0x1_0000
    } by {
        lemma_g_output_columns(inp, spec_reads(mem, inp), outs, enabler, j);
    }
}

/// The eight columns of G output `j`: the halves of its four words.
proof fn lemma_g_output_columns(
    inp: BlakeRoundInput,
    reads: Seq<WordRead>,
    outs: Seq<(u32, u32, u32, u32)>,
    enabler: u32,
    j: int,
)
    requires
        0 <= j < 8,
    ensures
        ({
            let o = outs[j];
            let b = 147 + 8 * j;
            &&& row_column(inp, reads, outs, enabler, b) == o.0 % 0x1_0000
            &&& row_column(inp, reads, outs, enabler, b + 1) == o.0 / 0x1_0000
            &&& row_column(inp, reads, outs, enabler, b + 2) == o.1 % 0x1_0000
            &&& row_column(inp, reads, outs, enabler, b + 3) == o.1 / 0x1_0000
            &&& row_column(inp, reads, outs, enabler, b + 4) == o.2 % 0x1_0000
            &&& row_column(inp, reads, outs, enabler, b + 5) == o.2 / 0x1_0000
            &&& row_column(inp, reads, outs, enabler, b + 6) == o.3 % 0x1_0000
            &&& row_column(inp, reads, outs, enabler, b + 7) == o.3 / 0x1_0000
        }),
{
    let b = 147 + 8 * j;
    assert((b - 147) / 8 == j && (b - 147) % 8 == 0);
    assert((b + 1 - 147) / 8 == j && (b + 1 - 147) % 8 == 1);
    assert((b + 2 - 147) / 8 == j && (b + 2 - 147) % 8 == 2);
    assert((b + 3 - 147) / 8 == j && (b + 3 - 147) % 8 == 3);
    assert((b + 4 - 147) / 8 == j && (b + 4 - 147) % 8 == 4);
    assert((b + 5 - 147) / 8 == j && (b + 5 - 147) % 8 == 5);
    assert((b + 6 - 147) / 8 == j && (b + 6 - 147) % 8 == 6);
    assert((b + 7 - 147) / 8 == j && (b + 7 - 147) % 8 == 7);
}

/// Read `k` of a round fills the six columns from `51 + 6k`, stated from
/// the word it reads: its low 16 bits, its high part, bits 9..16 of the
/// word, bits 18..32 (the high 16 bits shifted right by 2), bits 27..32
/// (those shifted right by 9 more), and the id memory stores at the address.
pub proof fn lemma_trace_read_columns(mem: &Memory, inp: BlakeRoundInput, enabler: u32, k: int)
    requires
        mem.wf(),
        valid_input(mem, inp),
        0 <= k < 16,
    ensures
        ({
            let t = trace_row(mem, inp, enabler);
            let a = message_address(inp, k);
            let w = spec_word_read(mem, a).word;
            let base = 51 + 6 * k;
            &&& t[base] == w % 0x1_0000
            &&& t[base + 1] == spec_word_read(mem, a).high_16_bits
            &&& t[base + 1] % 0x1_0000 == w / 0x1_0000
            &&& t[base + 2] == (w % 0x1_0000) / 0x200
            &&& t[base + 3] == w / 0x4_0000
            &&& t[base + 3] == (t[base + 1] % 0x1_0000) / 4
            &&& t[base + 4] == w / 0x800_0000
            &&& t[base + 4] == t[base + 3] / 0x200
            &&& t[base + 5] == mem.address_to_id@[a as int]
        }),
{
    let t = trace_row(mem, inp, enabler);
    let a = message_address(inp, k);
    let r = spec_word_read(mem, a);
    let w = r.word;
    let base = 51 + 6 * k;
    assert(mem.has_address(a));
    crate::message::lemma_word_read_bounds(mem, a);
    assert forall|i: int| 0 <= i < 6 implies #[trigger] t[base + i] == read_column(r, i) by {
        assert((base + i - 51) / 6 == k && (base + i - 51) % 6 == i);
    }
    vstd::arithmetic::div_mod::lemma_div_denominator(w as int, 0x1_0000, 4);
    vstd::arithmetic::div_mod::lemma_div_denominator(w as int, 0x4_0000, 0x200);
    assert(t[base + 3] == w / 0x4_0000);
    assert(t[base + 4] == w / 0x800_0000);
}

/// Every column of a row is a canonical field element: the trace only holds
/// values of the base field.
pub proof fn lemma_trace_row_is_canonical(mem: &Memory, inp: BlakeRoundInput, enabler: u32)
    requires
        mem.wf(),
        valid_input(mem, inp),
        enabler <= 1,
    ensures
        forall|c: int| 0 <= c < 212 ==> is_m31(#[trigger] trace_row(mem, inp, enabler)[c]),
{
    let t = trace_row(mem, inp, enabler);
    let reads = spec_reads(mem, inp);
    crate::blake::lemma_sigma_is_permutation(inp.round as int);
    assert forall|k: int| 0 <= k < 16 implies (#[trigger] reads[k]).wf() by {
        assert(mem.has_address(message_address(inp, k)));
        crate::message::lemma_word_read_bounds(mem, message_address(inp, k));
    }
    assert forall|c: int| 0 <= c < 212 implies is_m31(#[trigger] t[c]) by {
        if 51 <= c < 147 {
            assert(reads[(c - 51) / 6].wf());
        }
    }
}

} // verus!
