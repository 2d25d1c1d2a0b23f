use lib::blake::{blake_g, blake_round_sigma};
use lib::component::{next_power_of_two_with_log, BlakeRound, ClaimGenerator, PackedInputType};
use lib::interaction::{Fraction, LookupElements, N_INTERACTION_COLUMNS};
use lib::m31::{m31_add, m31_inverse, m31_mul, m31_mul_u32, m31_neg, m31_sub, P};
use lib::memory::Memory;
use lib::message::read_message_word;
use lib::qm31::{QM31, CM31};
use lib::round::{deduce_round_output, write_row, BlakeRoundInput, N_TRACE_COLUMNS};

fn limbs_of_u32(w: u32) -> [u32; 28] {
    let mut l = [0u32; 28];
    l[0] = w & 511;
    l[1] = (w >> 9) & 511;
    l[2] = (w >> 18) & 511;
    l[3] = w >> 27;
    l
}

/// Memory whose address `a` holds value id `a`, the word `words[a]`.
fn memory_with_words(words: &[u32]) -> Memory {
    Memory {
        address_to_id: (0..words.len() as u32).collect(),
        id_to_big: words.iter().map(|w| limbs_of_u32(*w)).collect(),
    }
}

const IV: [u32; 8] = [
    0x6A09E667, 0xBB67AE85, 0x3C6EF372, 0xA54FF53A, 0x510E527F, 0x9B05688C, 0x1F83D9AB, 0x5BE0CD19,
];

/// The working vector of Blake2s when compressing the single block "abc".
fn abc_state() -> [u32; 16] {
    let mut v = [0u32; 16];
    for i in 0..8 {
        v[i] = IV[i];
        v[i + 8] = IV[i];
    }
    v[0] ^= 0x01010020;
    v[12] ^= 3;
    v[14] ^= 0xffff_ffff;
    v
}

/// Memory with padding words below address 40 and the "abc" block at 40.
fn abc_memory() -> Memory {
    let mut words: Vec<u32> = (0..40u32).map(|i| i.wrapping_mul(0x01000193)).collect();
    let mut block = [0u32; 16];
    block[0] = 0x00636261;
    words.extend_from_slice(&block);
    memory_with_words(&words)
}

fn input(id: u32, round: u32, state: [u32; 16], ptr: u32) -> BlakeRoundInput {
    BlakeRoundInput { id, round, state, message_ptr: ptr }
}

#[test]
fn m31_operations_wrap_at_the_modulus() {
    assert_eq!(P, 2147483647);
    assert_eq!(m31_add(P - 1, 1), 0);
    assert_eq!(m31_add(P - 1, P - 1), P - 2);
    assert_eq!(m31_sub(3, 5), P - 2);
    assert_eq!(m31_sub(5, 3), 2);
    assert_eq!(m31_mul(P - 1, P - 1), 1);
    assert_eq!(m31_mul(65536, 65536), 2);
    assert_eq!(m31_neg(0), 0);
    assert_eq!(m31_neg(1), P - 1);
    assert_eq!(m31_mul_u32(3, u32::MAX), 3);
    assert_eq!(m31_inverse(1), 1);
    assert_eq!(m31_inverse(P - 1), P - 1);
    assert_eq!(m31_inverse(2), 1073741824);
    for a in [3u32, 5, 65536, 123456789, P - 2] {
        assert_eq!(m31_mul(a, m31_inverse(a)), 1);
    }
}

#[test]
fn sigma_rows_are_the_blake2s_schedule() {
    assert_eq!(blake_round_sigma(0), [0, 1, 2, 3, 4, 5, 6, 7, 8, 9, 10, 11, 12, 13, 14, 15]);
    assert_eq!(blake_round_sigma(1), [14, 10, 4, 8, 9, 15, 13, 6, 1, 12, 0, 2, 11, 7, 5, 3]);
    assert_eq!(blake_round_sigma(9), [10, 2, 8, 4, 7, 6, 1, 5, 15, 11, 9, 14, 3, 12, 13, 0]);
    for r in 0..10 {
        let mut seen = [false; 16];
        for s in blake_round_sigma(r) {
            assert!(!seen[s as usize]);
            seen[s as usize] = true;
        }
    }
}

#[test]
fn g_mixes_as_blake2s() {
    assert_eq!(blake_g(1, 2, 3, 4, 5, 6), [0x1000ce, 0x879c3839, 0xce0c1c03, 0xce001c00]);
}

#[test]
fn reading_a_word_cell_recovers_its_limbs() {
    let word = 0x89AB_CDEFu32;
    let mem = memory_with_words(&[7, word]);
    let r = read_message_word(&mem, 1);
    let l = limbs_of_u32(word);
    assert_eq!(r.address, 1);
    assert_eq!(r.id, 1);
    assert_eq!(r.word, word);
    assert_eq!(r.low_16_bits, word & 0xffff);
    assert_eq!(r.high_16_bits, word >> 16);
    assert_eq!(r.low_7_ms_bits, (word & 0xffff) >> 9);
    assert_eq!(r.high_14_ms_bits, (word >> 16) >> 2);
    assert_eq!(r.high_5_ms_bits, word >> 27);
    assert_eq!(r.range_check_values(), vec![l[1] % 128, l[1] / 128, l[3]]);
    assert_eq!(r.address_to_id_values(), vec![1, 1]);
    let mut expected = vec![1u32];
    expected.extend_from_slice(&l);
    assert_eq!(r.id_to_big_values(), expected);
}

#[test]
fn reading_a_wide_cell_wraps_the_word() {
    // Limb 3 above 5 bits: the high part exceeds 16 bits and the word wraps.
    let mut l = [0u32; 28];
    l[0] = 5;
    l[1] = 300;
    l[2] = 7;
    l[3] = 100;
    let mem = Memory { address_to_id: vec![0], id_to_big: vec![l] };
    let r = read_message_word(&mem, 0);
    let low = (300 % 128) * 512 + 5;
    let high = 100 * 2048 + 7 * 4 + 300 / 128;
    assert_eq!(r.low_16_bits, low);
    assert_eq!(r.high_16_bits, high);
    let word = ((low as u64 + (high as u64) * 65536) % (1u64 << 32)) as u32;
    assert_eq!(r.word, word);
    assert_eq!(r.low_7_ms_bits, (word % 65536) / 512);
    assert_eq!(r.high_14_ms_bits, (word / 65536) / 4);
    assert_eq!(r.high_5_ms_bits, ((word / 65536) / 4) / 512);
    assert_eq!(
        r.range_check_values(),
        vec![r.low_7_ms_bits, high - r.high_14_ms_bits * 4, r.high_5_ms_bits]
    );
}

#[test]
fn a_round_output_is_the_blake2s_round() {
    let mem = abc_memory();
    let out = deduce_round_output(&mem, &input(9, 0, abc_state(), 40));
    assert_eq!(out.id, 9);
    assert_eq!(out.round, 1);
    assert_eq!(out.message_ptr, 40);
    assert_eq!(
        out.state,
        [
            0x16a3242e, 0xd7b5e238, 0xce8ce24b, 0x927aede1, 0xa7b430d9, 0x93a4a14e, 0xa44e7c31,
            0x41d4759b, 0x95bf33d3, 0x9a99c181, 0x608a3a6b, 0xb666383e, 0x7a8dd50f, 0xbe378ed7,
            0x353d1ee6, 0x3bb44c6b,
        ]
    );
}

#[test]
fn round_three_reads_through_its_schedule() {
    let state: [u32; 16] = core::array::from_fn(|i| (i as u32).wrapping_mul(0x9E3779B9).wrapping_add(7));
    let message: Vec<u32> = (0..16u32).map(|j| 0x01020304u32.wrapping_mul(j + 1)).collect();
    let mem = memory_with_words(&message);
    let out = deduce_round_output(&mem, &input(1, 3, state, 0));
    assert_eq!(
        out.state,
        [
            0x3891907b, 0x62e6f0f6, 0x8df866a1, 0xa3e83266, 0x8f901776, 0x858ecc00, 0x46386b4c,
            0xfad20c26, 0x3c78c27d, 0x5befd736, 0x4ad48297, 0xeeb3f492, 0x823860de, 0x4bea0ab1,
            0xd3ecb105, 0x476b5fb3,
        ]
    );
}

#[test]
fn ten_rounds_compress_abc_to_the_blake2s_digest() {
    let mem = abc_memory();
    let round = BlakeRound::new(mem);
    let mut inp = input(0, 0, abc_state(), 40);
    for _ in 0..10 {
        let lanes: PackedInputType = [inp; 16];
        let out = round.deduce_output(&lanes);
        inp = out[5];
    }
    assert_eq!(inp.round, 10);
    let mut digest = Vec::new();
    let mut h = IV;
    h[0] ^= 0x01010020;
    for i in 0..8 {
        digest.extend_from_slice(&(h[i] ^ inp.state[i] ^ inp.state[i + 8]).to_le_bytes());
    }
    let hex: String = digest.iter().map(|b| format!("{:02x}", b)).collect();
    assert_eq!(hex, "508c5e8c327c14e2e1a72ba34eeb452f37458b209ed63a294d999b4c86675982");
}

#[test]
fn a_row_lays_out_input_schedule_reads_g_outputs_and_enabler() {
    let mem = abc_memory();
    let inp = input(9, 1, abc_state(), 40);
    let w = write_row(&mem, &inp, 1);
    let t = &w.trace;
    assert_eq!(t.len(), N_TRACE_COLUMNS);
    assert_eq!(t[0], 9);
    assert_eq!(t[1], 1);
    assert_eq!(t[2], abc_state()[0] & 0xffff);
    assert_eq!(t[3], abc_state()[0] >> 16);
    assert_eq!(t[34], 40);
    assert_eq!(&t[35..51], &blake_round_sigma(1)[..]);
    // First read: schedule entry 14 of round 1, address 54 (a zero word).
    assert_eq!(w.sub_component_inputs.memory_address_to_id[0], 54);
    assert_eq!(&t[51..57], &[0, 0, 0, 0, 0, 54]);
    // Read 10 takes message word 0 ("abc").
    assert_eq!(w.sub_component_inputs.memory_address_to_id[10], 40);
    let base = 51 + 6 * 10;
    assert_eq!(t[base], 0x6261);
    assert_eq!(t[base + 1], 0x0063);
    assert_eq!(t[base + 5], 40);
    assert_eq!(t[211], 1);
    let out = deduce_round_output(&mem, &inp);
    let l = &w.lookup_data;
    assert_eq!(l.blake_round_0, t[0..35].to_vec());
    assert_eq!(l.blake_round_1[0], 9);
    assert_eq!(l.blake_round_1[1], 2);
    for j in 0..16 {
        assert_eq!(l.blake_round_1[2 + 2 * j], out.state[j] & 0xffff);
        assert_eq!(l.blake_round_1[3 + 2 * j], out.state[j] >> 16);
    }
    assert_eq!(l.blake_round_sigma_0[0], 1);
    assert_eq!(l.blake_g.len(), 8);
    for j in 0..8 {
        assert_eq!(&l.blake_g[j][12..20], &t[147 + 8 * j..155 + 8 * j]);
    }
    assert_eq!(w.sub_component_inputs.blake_round_sigma, 1);
    let g0 = w.sub_component_inputs.blake_g[0];
    let s = abc_state();
    assert_eq!(&g0[0..4], &[s[0], s[4], s[8], s[12]]);
    let disabled = write_row(&mem, &inp, 0);
    assert_eq!(disabled.trace[211], 0);
    assert_eq!(&disabled.trace[..211], &t[..211]);
}

#[test]
fn next_power_of_two_and_its_log() {
    assert_eq!(next_power_of_two_with_log(1), (1, 0));
    assert_eq!(next_power_of_two_with_log(2), (2, 1));
    assert_eq!(next_power_of_two_with_log(3), (4, 2));
    assert_eq!(next_power_of_two_with_log(4), (4, 2));
    assert_eq!(next_power_of_two_with_log(5), (8, 3));
    assert_eq!(next_power_of_two_with_log(1000), (1024, 10));
}

fn packed(base_id: u32, state: [u32; 16]) -> PackedInputType {
    core::array::from_fn(|j| input(base_id + j as u32, (j % 10) as u32, state, 40))
}

#[test]
fn claim_generator_collects_inputs_and_deduces_lanes() {
    let mut g = ClaimGenerator::new(abc_memory());
    assert!(g.is_empty());
    g.add_packed_inputs(&[]);
    assert!(g.is_empty());
    let p = packed(100, abc_state());
    g.add_packed_inputs(&[p]);
    assert!(!g.is_empty());
    assert_eq!(g.packed_inputs.len(), 1);
    let out = g.deduce_output(p);
    for j in 0..16 {
        let single = deduce_round_output(&abc_memory(), &p[j]);
        assert_eq!(out[j], single);
        assert_eq!(out[j].round, p[j].round + 1);
    }
}

#[test]
fn write_trace_pads_to_a_power_of_two_and_disables_padding() {
    let mut g = ClaimGenerator::new(abc_memory());
    let inputs = [packed(0, abc_state()), packed(16, abc_state()), packed(32, abc_state())];
    g.add_packed_inputs(&inputs);
    let (claim, interaction, trace, sub_inputs) = g.write_trace();
    assert_eq!(claim.log_size, 6);
    assert_eq!(interaction.log_size, 6);
    assert_eq!(interaction.n_rows, 48);
    assert_eq!(trace.len(), 64);
    assert_eq!(interaction.lookup_data.len(), 64);
    assert_eq!(sub_inputs.len(), 64);
    for r in 0..64 {
        assert_eq!(trace[r].len(), N_TRACE_COLUMNS);
        assert!(trace[r].iter().all(|v| *v < P));
        assert_eq!(trace[r][211], if r < 48 { 1 } else { 0 });
    }
    assert_eq!(trace[17][0], 17);
    assert_eq!(trace[47][0], 47);
    // Padding rows repeat the first packed input.
    for r in 48..64 {
        assert_eq!(&trace[r][..211], &trace[r - 48][..211]);
    }
    let mem = abc_memory();
    let row5 = write_row(&mem, &inputs[0][5], 1);
    assert_eq!(trace[5], row5.trace);
}

#[test]
fn qm31_arithmetic() {
    let x = QM31::from_u32s(1, 2, 3, 4);
    let y = QM31::from_u32s(5, 6, 7, 8);
    assert_eq!(x.mul(&y), QM31(CM31(2147483566, 109), CM31(2147483629, 60)));
    assert_eq!(x.add(&y), QM31::from_u32s(6, 8, 10, 12));
    assert_eq!(x.sub(&y), QM31::from_u32s(P - 4, P - 4, P - 4, P - 4));
    assert_eq!(x.add(&x.neg()), QM31::zero());
    assert_eq!(x.scale(2), QM31::from_u32s(2, 4, 6, 8));
    assert_eq!(QM31::from_u32s(P, P + 1, 0, 0), QM31::from_u32s(0, 1, 0, 0));
    assert_eq!(QM31::one().mul(&x), x);
    assert_eq!(x.add(&y), y.add(&x));
    assert_eq!(QM31::from_u32s(9, 0, 0, 0).mul(&y), y.scale(9));
    let inv = x.try_inverse().unwrap();
    assert_eq!(x.mul(&inv), QM31::one());
    assert_eq!(QM31::zero().try_inverse(), None);
    let u = QM31::from_u32s(0, 0, 1, 0);
    assert_eq!(u.mul(&u.try_inverse().unwrap()), QM31::one());
    let big = QM31::from_u32s(P - 1, 12345, 999, P - 7);
    assert_eq!(big.mul(&big.try_inverse().unwrap()), QM31::one());
}

#[test]
fn lookup_elements_combine_entries() {
    let z = QM31::from_u32s(11, 12, 13, 14);
    let alpha = QM31::from_u32s(2, 3, 5, 7);
    let e = LookupElements::new(z, alpha, 3);
    assert_eq!(e.alpha_powers.len(), 3);
    assert_eq!(e.alpha_powers[0], QM31::one());
    assert_eq!(e.alpha_powers[1], alpha);
    assert_eq!(e.alpha_powers[2], QM31(CM31(2147483524, 128), CM31(2147483625, 58)));
    assert_eq!(
        e.combine(&vec![100, 200, 300]),
        QM31(CM31(2147447236, 38988), CM31(2147478034, 18786))
    );
    // Values beyond the number of powers are not combined.
    assert_eq!(e.combine(&vec![100, 200, 300, 400]), e.combine(&vec![100, 200, 300]));
}

fn relation(seed: u32, n: usize) -> LookupElements {
    LookupElements::new(
        QM31::from_u32s(seed, seed + 1, seed + 2, seed + 3),
        QM31::from_u32s(seed * 7 + 1, seed * 11 + 2, seed * 13 + 3, seed * 17 + 4),
        n,
    )
}

#[test]
fn interaction_pairs_lookups_and_sums_them() {
    let mut g = ClaimGenerator::new(abc_memory());
    g.add_packed_inputs(&[packed(0, abc_state())]);
    let (_claim, interaction, _trace, _sub) = g.write_trace();
    let blake_g = relation(1000, 20);
    let blake_round = relation(2000, 35);
    let sigma = relation(3000, 17);
    let addr = relation(4000, 2);
    let big = relation(5000, 29);
    let rc = relation(6000, 3);
    let first = &interaction.lookup_data[0];
    let d_sigma = sigma.combine(&first.blake_round_sigma_0);
    let d_rc0 = rc.combine(&first.range_check_7_2_5[0]);
    let d_g7 = blake_g.combine(&first.blake_g[7]);
    let d_in = blake_round.combine(&first.blake_round_0);
    let d_out = blake_round.combine(&first.blake_round_1);
    let n_rows = interaction.n_rows;
    let (rows, claim) = interaction.write_interaction_trace(&blake_g, &blake_round, &sigma, &addr, &big, &rc);
    assert_eq!(n_rows, 16);
    assert_eq!(rows.len(), 16);
    for r in 0..16 {
        assert_eq!(rows[r].len(), N_INTERACTION_COLUMNS);
    }
    let row = &rows[0];
    assert_eq!(row[0], Fraction { numerator: d_sigma.add(&d_rc0), denominator: d_sigma.mul(&d_rc0) });
    // The same column as the sum 1/d_sigma + 1/d_rc0.
    let one = QM31::one();
    assert_eq!(row[0].numerator, one.mul(&d_rc0).add(&one.mul(&d_sigma)));
    assert_eq!(row[28], Fraction { numerator: d_g7.scale(1).add(&d_in), denominator: d_g7.mul(&d_in) });
    assert_eq!(row[29], Fraction { numerator: QM31::one().neg(), denominator: d_out });
    // The round input enters with the enabler: 1/d_g7 + 1/d_in on a real row.
    assert_eq!(row[28].numerator, one.mul(&d_in).add(&QM31::from_u32s(1, 0, 0, 0).mul(&d_g7)));
    // The claimed sum is the sum of all fractions.
    let mut num = QM31::zero();
    let mut den = QM31::one();
    for r in &rows {
        for f in r {
            let a = num.mul(&f.denominator);
            let b = f.numerator.mul(&den);
            num = a.add(&b);
            den = den.mul(&f.denominator);
        }
    }
    let claimed = claim.unwrap().claimed_sum;
    assert_eq!(claimed.mul(&den), num);
}

#[test]
fn padding_rows_neither_use_nor_yield_rounds() {
    let mut g = ClaimGenerator::new(abc_memory());
    g.add_packed_inputs(&[packed(0, abc_state()), packed(16, abc_state()), packed(32, abc_state())]);
    let (_claim, interaction, _trace, _sub) = g.write_trace();
    let blake_g = relation(1000, 20);
    let blake_round = relation(2000, 35);
    let sigma = relation(3000, 17);
    let addr = relation(4000, 2);
    let big = relation(5000, 29);
    let rc = relation(6000, 3);
    let pad = &interaction.lookup_data[50];
    let d_in = blake_round.combine(&pad.blake_round_0);
    let d_g7 = blake_g.combine(&pad.blake_g[7]);
    let (rows, claim) = interaction.write_interaction_trace(&blake_g, &blake_round, &sigma, &addr, &big, &rc);
    assert_eq!(rows.len(), 64);
    assert_eq!(rows[50][29].numerator, QM31::zero());
    assert_eq!(rows[50][28].numerator, d_in);
    assert_eq!(rows[50][28].denominator, d_g7.mul(&d_in));
    assert_eq!(rows[47][29].numerator, QM31::one().neg());
    assert!(claim.is_some());
}

#[test]
fn g_lookups_take_the_read_columns_of_message_words() {
    // Word 0 of the message is a wide cell: its high column exceeds 16 bits.
    let mut wide = [0u32; 28];
    wide[0] = 5;
    wide[1] = 300;
    wide[2] = 7;
    wide[3] = 100;
    let mut big: Vec<[u32; 28]> = vec![wide];
    for j in 1..16u32 {
        big.push(limbs_of_u32(j * 1000));
    }
    let mem = Memory { address_to_id: (0..16u32).collect(), id_to_big: big };
    let w = write_row(&mem, &input(0, 0, abc_state(), 0), 1);
    let g0 = &w.lookup_data.blake_g[0];
    let t = &w.trace;
    // Reads 0 and 1 feed G step 0; their low and high columns are 51, 52, 57, 58.
    assert_eq!(g0[8], t[51]);
    assert_eq!(g0[9], t[52]);
    assert_eq!(g0[10], t[57]);
    assert_eq!(g0[11], t[58]);
    assert_eq!(g0[9], 100 * 2048 + 7 * 4 + 300 / 128);
    assert!(g0[9] >= 65536);
}

#[test]
fn permuting_packed_inputs_permutes_rows() {
    let a = packed(0, abc_state());
    let b = packed(16, abc_state());
    let mut s2 = abc_state();
    s2[3] ^= 0xdead_beef;
    let c = packed(32, s2);
    let d = packed(48, abc_state());
    let mut g1 = ClaimGenerator::new(abc_memory());
    g1.add_packed_inputs(&[a, b, c, d]);
    let mut g2 = ClaimGenerator::new(abc_memory());
    g2.add_packed_inputs(&[c, a, d, b]);
    let (_, i1, t1, s1) = g1.write_trace();
    let (_, i2, t2, s_2) = g2.write_trace();
    let pi = [2usize, 0, 3, 1];
    for i in 0..4 {
        for l in 0..16 {
            let (r2, r1) = (16 * i + l, 16 * pi[i] + l);
            assert_eq!(t2[r2], t1[r1]);
            assert_eq!(i2.lookup_data[r2].blake_g, i1.lookup_data[r1].blake_g);
            assert_eq!(i2.lookup_data[r2].blake_round_1, i1.lookup_data[r1].blake_round_1);
            assert_eq!(s_2[r2].memory_id_to_big, s1[r1].memory_id_to_big);
            assert_eq!(s_2[r2].blake_g, s1[r1].blake_g);
        }
    }
}

#[test]
fn padding_round_entries_do_not_change_the_claimed_sum() {
    let mut g = ClaimGenerator::new(abc_memory());
    g.add_packed_inputs(&[packed(0, abc_state()), packed(16, abc_state()), packed(32, abc_state())]);
    let (_, interaction, _, _) = g.write_trace();
    let mut g2 = ClaimGenerator::new(abc_memory());
    g2.add_packed_inputs(&[packed(0, abc_state()), packed(16, abc_state()), packed(32, abc_state())]);
    let (_, mut changed, _, _) = g2.write_trace();
    for r in interaction.n_rows..changed.lookup_data.len() {
        changed.lookup_data[r].blake_round_0[0] = 777 + r as u32;
        changed.lookup_data[r].blake_round_1[5] = 999;
    }
    let rels = [
        relation(1000, 20),
        relation(2000, 35),
        relation(3000, 17),
        relation(4000, 2),
        relation(5000, 29),
        relation(6000, 3),
    ];
    let (_, c1) = interaction.write_interaction_trace(&rels[0], &rels[1], &rels[2], &rels[3], &rels[4], &rels[5]);
    let (_, c2) = changed.write_interaction_trace(&rels[0], &rels[1], &rels[2], &rels[3], &rels[4], &rels[5]);
    assert_eq!(c1.unwrap().claimed_sum, c2.unwrap().claimed_sum);
}
