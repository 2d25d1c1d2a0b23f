//! The Blake2s compression round: the message schedule (sigma), the mixing
//! function G, and the round as the standard sequence of eight G steps over
//! a 16-word working vector.

use vstd::prelude::*;

verus! {

/// Number of distinct message schedules; round `r` uses schedule `r`.
pub const N_SIGMA_ROUNDS: u32 = 10;

/// Row `round` of the Blake2s message schedule.
pub open spec fn sigma_seq(round: int) -> Seq<u32> {
    if round == 0 {
        seq![0u32, 1, 2, 3, 4, 5, 6, 7, 8, 9, 10, 11, 12, 13, 14, 15]
    } else if round == 1 {
        seq![14u32, 10, 4, 8, 9, 15, 13, 6, 1, 12, 0, 2, 11, 7, 5, 3]
    } else if round == 2 {
        seq![11u32, 8, 12, 0, 5, 2, 15, 13, 10, 14, 3, 6, 7, 1, 9, 4]
    } else if round == 3 {
        seq![7u32, 9, 3, 1, 13, 12, 11, 14, 2, 6, 5, 10, 4, 0, 15, 8]
    } else if round == 4 {
        seq![9u32, 0, 5, 7, 2, 4, 10, 15, 14, 1, 11, 12, 6, 8, 3, 13]
    } else if round == 5 {
        seq![2u32, 12, 6, 10, 0, 11, 8, 3, 4, 13, 7, 5, 15, 14, 1, 9]
    } else if round == 6 {
        seq![12u32, 5, 1, 15, 14, 13, 4, 10, 0, 7, 6, 3, 9, 2, 8, 11]
    } else if round == 7 {
        seq![13u32, 11, 7, 14, 12, 1, 3, 9, 5, 0, 15, 4, 8, 6, 2, 10]
    } else if round == 8 {
        seq![6u32, 15, 14, 9, 11, 3, 0, 8, 12, 2, 13, 7, 1, 4, 10, 5]
    } else {
        seq![10u32, 2, 8, 4, 7, 6, 1, 5, 15, 11, 9, 14, 3, 12, 13, 0]
    }
}

/// The message schedule of a round: the order in which the round reads the
/// 16 message words.
pub fn blake_round_sigma(round: u32) -> (r: [u32; 16])
    requires
        round < N_SIGMA_ROUNDS,
    ensures
        r@ == sigma_seq(round as int),
        forall|i: int| 0 <= i < 16 ==> blake2s_read_position(round as int, #[trigger] r@[i] as int) == i,
{
    let r = match round {
        0 => [0u32, 1, 2, 3, 4, 5, 6, 7, 8, 9, 10, 11, 12, 13, 14, 15],
        1 => [14u32, 10, 4, 8, 9, 15, 13, 6, 1, 12, 0, 2, 11, 7, 5, 3],
        2 => [11u32, 8, 12, 0, 5, 2, 15, 13, 10, 14, 3, 6, 7, 1, 9, 4],
        3 => [7u32, 9, 3, 1, 13, 12, 11, 14, 2, 6, 5, 10, 4, 0, 15, 8],
        4 => [9u32, 0, 5, 7, 2, 4, 10, 15, 14, 1, 11, 12, 6, 8, 3, 13],
        5 => [2u32, 12, 6, 10, 0, 11, 8, 3, 4, 13, 7, 5, 15, 14, 1, 9],
        6 => [12u32, 5, 1, 15, 14, 13, 4, 10, 0, 7, 6, 3, 9, 2, 8, 11],
        7 => [13u32, 11, 7, 14, 12, 1, 3, 9, 5, 0, 15, 4, 8, 6, 2, 10],
        8 => [6u32, 15, 14, 9, 11, 3, 0, 8, 12, 2, 13, 7, 1, 4, 10, 5],
        _ => [10u32, 2, 8, 4, 7, 6, 1, 5, 15, 11, 9, 14, 3, 12, 13, 0],
    };
    assert(r@ =~= sigma_seq(round as int));
    proof {
        assert forall|i: int| 0 <= i < 16 implies blake2s_read_position(
            round as int,
            #[trigger] r@[i] as int,
        ) == i by {
            lemma_sigma_is_blake2s_schedule(round as int, i);
        }
    }
    r
}

/// Every row of the schedule is a permutation of the word indices 0..16:
/// a round reads each message word exactly once.
pub proof fn lemma_sigma_is_permutation(round: int)
    requires
        0 <= round < N_SIGMA_ROUNDS,
    ensures
        sigma_seq(round).len() == 16,
        forall|i: int| 0 <= i < 16 ==> #[trigger] sigma_seq(round)[i] < 16,
        forall|i: int, j: int|
            0 <= i < 16 && 0 <= j < 16 && i != j ==> sigma_seq(round)[i] != sigma_seq(round)[j],
{
    let s = sigma_seq(round);
    assert(s.len() == 16);
    assert forall|i: int, j: int|
        0 <= i < 16 && 0 <= j < 16 && i != j implies s[i] != s[j] by {
        assert(s[i] < 16 && s[j] < 16);
    }
}

/// Addition modulo 2^32.
pub open spec fn add32(a: u32, b: u32) -> u32 {
    ((a + b) % 0x1_0000_0000) as u32
}

/// Rotation of a 32-bit word right by `n` bits.
pub open spec fn rotr(x: u32, n: u32) -> u32
    recommends
        0 < n < 32,
{
    (x >> n) | (x << ((32 - n) as u32))
}

/// The Blake2s mixing function G on four state words and two message words.
#[verifier::opaque]
pub open spec fn g_spec(a: u32, b: u32, c: u32, d: u32, m0: u32, m1: u32) -> (u32, u32, u32, u32) {
    let a1 = add32(add32(a, b), m0);
    let d1 = rotr(d ^ a1, 16);
    let c1 = add32(c, d1);
    let b1 = rotr(b ^ c1, 12);
    let a2 = add32(add32(a1, b1), m1);
    let d2 = rotr(d1 ^ a2, 8);
    let c2 = add32(c1, d2);
    let b2 = rotr(b1 ^ c2, 7);
    (a2, b2, c2, d2)
}

/// Applies G to the words at positions `a`, `b`, `c`, `d` of the working vector.
pub open spec fn g_step(v: Seq<u32>, a: int, b: int, c: int, d: int, x: u32, y: u32) -> Seq<u32> {
    let out = g_spec(v[a], v[b], v[c], v[d], x, y);
    v.update(a, out.0).update(b, out.1).update(c, out.2).update(d, out.3)
}

/// What a G step changes: the four positions it names, nothing else.
pub proof fn lemma_g_step(v: Seq<u32>, a: int, b: int, c: int, d: int, x: u32, y: u32)
    requires
        v.len() == 16,
        0 <= a < 16,
        0 <= b < 16,
        0 <= c < 16,
        0 <= d < 16,
        a != b && a != c && a != d && b != c && b != d && c != d,
    ensures
        ({
            let out = g_spec(v[a], v[b], v[c], v[d], x, y);
            let r = g_step(v, a, b, c, d, x, y);
            &&& r.len() == 16
            &&& r[a] == out.0
            &&& r[b] == out.1
            &&& r[c] == out.2
            &&& r[d] == out.3
            &&& forall|i: int|
                0 <= i < 16 && i != a && i != b && i != c && i != d ==> #[trigger] r[i] == v[i]
        }),
{
}

/// One Blake2s round on the working vector `v`, with message words `m` taken
/// in the order of schedule `s`: G on the four columns, then on the four
/// diagonals.
pub open spec fn blake2s_round(v: Seq<u32>, m: Seq<u32>, s: Seq<u32>) -> Seq<u32> {
    let v = g_step(v, 0, 4, 8, 12, m[s[0] as int], m[s[1] as int]);
    let v = g_step(v, 1, 5, 9, 13, m[s[2] as int], m[s[3] as int]);
    let v = g_step(v, 2, 6, 10, 14, m[s[4] as int], m[s[5] as int]);
    let v = g_step(v, 3, 7, 11, 15, m[s[6] as int], m[s[7] as int]);
    let v = g_step(v, 0, 5, 10, 15, m[s[8] as int], m[s[9] as int]);
    let v = g_step(v, 1, 6, 11, 12, m[s[10] as int], m[s[11] as int]);
    let v = g_step(v, 2, 7, 8, 13, m[s[12] as int], m[s[13] as int]);
    g_step(v, 3, 4, 9, 14, m[s[14] as int], m[s[15] as int])
}

fn add_u32(a: u32, b: u32) -> (r: u32)
    ensures
        r == add32(a, b),
{
    ((a as u64 + b as u64) % 0x1_0000_0000) as u32
}

fn rotate_right(x: u32, n: u32) -> (r: u32)
    requires
        0 < n < 32,
    ensures
        r == rotr(x, n),
{
    (x >> n) | (x << (32 - n))
}

/// The Blake2s mixing function G: returns the new values of `a`, `b`, `c`, `d`.
pub fn blake_g(a: u32, b: u32, c: u32, d: u32, m0: u32, m1: u32) -> (r: [u32; 4])
    ensures
        (r[0], r[1], r[2], r[3]) == g_spec(a, b, c, d, m0, m1),
{
    reveal(g_spec);
    let a1 = add_u32(add_u32(a, b), m0);
    let d1 = rotate_right(d ^ a1, 16);
    let c1 = add_u32(c, d1);
    let b1 = rotate_right(b ^ c1, 12);
    let a2 = add_u32(add_u32(a1, b1), m1);
    let d2 = rotate_right(d1 ^ a2, 8);
    let c2 = add_u32(c1, d2);
    let b2 = rotate_right(b1 ^ c2, 7);
    [a2, b2, c2, d2]
}

/// The Blake2s message schedule as the Blake2s standard tabulates it, given
/// by position: entry `16 r + w` is the step of round `r` (0..16) at which
/// message word `w` is read.
pub open spec fn blake2s_read_position(r: int, w: int) -> int {
    let table: Seq<int> = seq![
        0, 1, 2, 3, 4, 5, 6, 7, 8, 9, 10, 11, 12, 13, 14, 15,
        10, 8, 11, 15, 2, 14, 7, 13, 3, 4, 1, 12, 9, 6, 0, 5,
        3, 13, 5, 10, 15, 4, 11, 12, 1, 14, 8, 0, 2, 7, 9, 6,
        13, 3, 8, 2, 12, 10, 9, 0, 15, 1, 11, 6, 5, 4, 7, 14,
        1, 9, 4, 14, 5, 2, 12, 3, 13, 0, 6, 10, 11, 15, 8, 7,
        4, 14, 0, 7, 8, 11, 2, 10, 6, 15, 3, 5, 1, 9, 13, 12,
        8, 2, 13, 11, 6, 1, 10, 9, 14, 12, 7, 15, 0, 5, 4, 3,
        9, 5, 14, 6, 11, 8, 13, 2, 12, 7, 15, 1, 4, 0, 3, 10,
        6, 12, 9, 5, 13, 15, 0, 11, 7, 3, 14, 4, 8, 10, 2, 1,
        15, 6, 1, 12, 3, 7, 5, 4, 2, 10, 0, 9, 13, 14, 11, 8,
    ];
    table[16 * r + w]
}

/// Each round reads its message words in the order of the Blake2s standard
/// schedule: for every round `r` below 10 and step `i`, the word read at step
/// `i` is the one whose standard read position is `i`. With the permutation
/// law this pins every entry of every row.
pub proof fn lemma_sigma_is_blake2s_schedule(r: int, i: int)
    requires
        0 <= r < 10,
        0 <= i < 16,
    ensures
        blake2s_read_position(r, sigma_seq(r)[i] as int) == i,
{
    let s = sigma_seq(r);
    assert(s.len() == 16);
}

} // verus!
