//! The interaction phase: every lookup entry of a row is combined with the
//! relation's random elements into a denominator, the entries are paired into
//! fractions (one interaction column per pair), and all fractions are summed
//! into the claimed sum.

use vstd::prelude::*;
use crate::component::{InteractionClaimGenerator, enabler_at};
use crate::qm31::{
    lemma_qm31_mul_assoc, lemma_qm31_mul_comm, lemma_qm31_mul_distrib, lemma_qm31_mul_swap,
    lemma_qm31_zero_laws, QM31, cm31_norm_spec, qm31_norm_spec, qm31_add_spec, qm31_mul_spec, qm31_neg_spec, qm31_one, qm31_scale_spec, qm31_sub_spec,
    qm31_wf, qm31_zero,
};
use crate::round::{RowLookupData, views};

verus! {

/// Number of interaction columns: 29 pairs of lookups and the round output.
pub const N_INTERACTION_COLUMNS: usize = 30;

/// The random elements of one relation: `z` and the powers of `alpha`.
pub struct LookupElements {
    pub z: QM31,
    pub alpha_powers: Vec<QM31>,
}

/// `numerator / denominator` in the secure field.
#[derive(Clone, Copy, Debug, PartialEq, Eq)]
pub struct Fraction {
    pub numerator: QM31,
    pub denominator: QM31,
}

/// The claim of the interaction phase.
#[derive(Clone, Copy, Debug, PartialEq, Eq)]
pub struct InteractionClaim {
    pub claimed_sum: QM31,
}

/// The weighted sum `sum_{i < n} alphas[i] * values[i]`.
pub open spec fn weighted_sum(alphas: Seq<QM31>, values: Seq<u32>, n: nat) -> QM31
    decreases n,
{
    if n == 0 {
        qm31_zero()
    } else {
        qm31_add_spec(
            weighted_sum(alphas, values, (n - 1) as nat),
            qm31_scale_spec(alphas[n - 1], values[n - 1]),
        )
    }
}

/// The denominator of a lookup entry: `sum_i alpha^i * values[i] - z`, over
/// as many values as there are powers (the shorter of the two).
pub open spec fn combine_spec(e: LookupElements, values: Seq<u32>) -> QM31 {
    let n = if values.len() < e.alpha_powers@.len() {
        values.len()
    } else {
        e.alpha_powers@.len()
    };
    qm31_sub_spec(weighted_sum(e.alpha_powers@, values, n), e.z)
}

/// `alpha^i`.
pub open spec fn qm31_pow_spec(alpha: QM31, i: nat) -> QM31
    decreases i,
{
    if i == 0 {
        qm31_one()
    } else {
        qm31_mul_spec(qm31_pow_spec(alpha, (i - 1) as nat), alpha)
    }
}

impl LookupElements {
    /// All elements are canonical.
    pub open spec fn wf(&self) -> bool {
        &&& qm31_wf(self.z)
        &&& forall|i: int| 0 <= i < self.alpha_powers@.len() ==> qm31_wf(#[trigger] self.alpha_powers@[i])
    }

    /// The elements of a relation with `n` values per entry: `z`, and the
    /// powers `alpha^0 .. alpha^(n-1)`.
    pub fn new(z: QM31, alpha: QM31, n: usize) -> (e: LookupElements)
        requires
            qm31_wf(z),
            qm31_wf(alpha),
        ensures
            e.wf(),
            e.z == z,
            e.alpha_powers@.len() == n,
            forall|i: int| 0 <= i < n ==> #[trigger] e.alpha_powers@[i] == qm31_pow_spec(alpha, i as nat),
    {
        let mut powers: Vec<QM31> = Vec::new();
        let mut current = QM31::one();
        let mut i: usize = 0;
        while i < n
            invariant
                i <= n,
                qm31_wf(alpha),
                qm31_wf(current),
                current == qm31_pow_spec(alpha, i as nat),
                powers@.len() == i,
                forall|k: int| 0 <= k < i ==> #[trigger] powers@[k] == qm31_pow_spec(alpha, k as nat),
                forall|k: int| 0 <= k < i ==> qm31_wf(#[trigger] powers@[k]),
            decreases n - i,
        {
            powers.push(current);
            current = current.mul(&alpha);
            i = i + 1;
        }
        LookupElements { z, alpha_powers: powers }
    }

    /// The denominator of a lookup entry.
    pub fn combine(&self, values: &Vec<u32>) -> (r: QM31)
        requires
            self.wf(),
        ensures
            r == combine_spec(*self, values@),
            qm31_wf(r),
    {
        let n = if values.len() < self.alpha_powers.len() {
            values.len()
        } else {
            self.alpha_powers.len()
        };
        let mut acc = QM31::zero();
        let mut i: usize = 0;
        while i < n
            invariant
                i <= n,
                n <= values@.len(),
                n <= self.alpha_powers@.len(),
                self.wf(),
                qm31_wf(acc),
                acc == weighted_sum(self.alpha_powers@, values@, i as nat),
            decreases n - i,
        {
            let term = self.alpha_powers[i].scale(values[i]);
            acc = acc.add(&term);
            i = i + 1;
        }
        acc.sub(&self.z)
    }
}

/// Fraction sum: `a/b + c/d = (a d + c b) / (b d)`.
pub open spec fn fraction_add_spec(x: Fraction, y: Fraction) -> Fraction {
    Fraction {
        numerator: qm31_add_spec(
            qm31_mul_spec(x.numerator, y.denominator),
            qm31_mul_spec(y.numerator, x.denominator),
        ),
        denominator: qm31_mul_spec(x.denominator, y.denominator),
    }
}

/// `0 / 1`.
pub open spec fn fraction_zero() -> Fraction {
    Fraction { numerator: qm31_zero(), denominator: qm31_one() }
}

/// `acc` plus the fractions of `fs`, added left to right.
pub open spec fn sum_fractions_from(acc: Fraction, fs: Seq<Fraction>) -> Fraction
    decreases fs.len(),
{
    if fs.len() == 0 {
        acc
    } else {
        fraction_add_spec(sum_fractions_from(acc, fs.drop_last()), fs.last())
    }
}

/// The sum of all fractions of all rows, row after row.
pub open spec fn sum_rows(rows: Seq<Seq<Fraction>>) -> Fraction
    decreases rows.len(),
{
    if rows.len() == 0 {
        fraction_zero()
    } else {
        sum_fractions_from(sum_rows(rows.drop_last()), rows.last())
    }
}

/// The sum of all fractions of the rows of an interaction trace.
pub open spec fn total_fraction(rows: Seq<Vec<Fraction>>) -> Fraction {
    sum_rows(rows.map_values(|v: Vec<Fraction>| v@))
}

impl RowLookupData {
    /// Sixteen reads and eight G steps.
    pub open spec fn has_shape(&self) -> bool {
        &&& self.range_check_7_2_5@.len() == 16
        &&& self.memory_address_to_id@.len() == 16
        &&& self.memory_id_to_big@.len() == 16
        &&& self.blake_g@.len() == 8
    }
}

/// The denominators of a row's lookups in the order the interaction pairs
/// them: the schedule lookup, then per read the range check, the address
/// lookup and the value lookup, then the eight G steps, then the round input.
pub open spec fn lookup_denominators(
    blake_g: LookupElements,
    blake_round: LookupElements,
    blake_round_sigma: LookupElements,
    memory_address_to_id: LookupElements,
    memory_id_to_big: LookupElements,
    range_check_7_2_5: LookupElements,
    l: RowLookupData,
) -> Seq<QM31> {
    seq![combine_spec(blake_round_sigma, l.blake_round_sigma_0@)] + Seq::new(
        48,
        |i: int|
            {
                let k = i / 3;
                if i % 3 == 0 {
                    combine_spec(range_check_7_2_5, views(l.range_check_7_2_5@)[k])
                } else if i % 3 == 1 {
                    combine_spec(memory_address_to_id, views(l.memory_address_to_id@)[k])
                } else {
                    combine_spec(memory_id_to_big, views(l.memory_id_to_big@)[k])
                }
            },
    ) + Seq::new(8, |j: int| combine_spec(blake_g, views(l.blake_g@)[j])) + seq![
        combine_spec(blake_round, l.blake_round_0@),
    ]
}

/// The 30 interaction fractions of a row. Column `c < 28` sums the lookups
/// `2c` and `2c+1` with multiplicity one: `(d0 + d1) / (d0 d1)`. Column 28
/// pairs the last G step (multiplicity one) with the round input (multiplicity
/// `enabler`): `(d0 enabler + d1) / (d0 d1)`. Column 29 yields the round
/// output with multiplicity `-enabler`.
#[verifier::opaque]
pub open spec fn row_fractions(
    blake_g: LookupElements,
    blake_round: LookupElements,
    blake_round_sigma: LookupElements,
    memory_address_to_id: LookupElements,
    memory_id_to_big: LookupElements,
    range_check_7_2_5: LookupElements,
    l: RowLookupData,
    enabler: u32,
) -> Seq<Fraction> {
    let d = lookup_denominators(
        blake_g,
        blake_round,
        blake_round_sigma,
        memory_address_to_id,
        memory_id_to_big,
        range_check_7_2_5,
        l,
    );
    Seq::new(
        30,
        |c: int|
            if c < 28 {
                Fraction {
                    numerator: qm31_add_spec(d[2 * c], d[2 * c + 1]),
                    denominator: qm31_mul_spec(d[2 * c], d[2 * c + 1]),
                }
            } else if c == 28 {
                Fraction {
                    numerator: qm31_add_spec(qm31_scale_spec(d[56], enabler), d[57]),
                    denominator: qm31_mul_spec(d[56], d[57]),
                }
            } else {
                Fraction {
                    numerator: qm31_scale_spec(qm31_neg_spec(qm31_one()), enabler),
                    denominator: combine_spec(blake_round, l.blake_round_1@),
                }
            },
    )
}

/// All elements of the six relations are canonical.
pub open spec fn relations_wf(
    blake_g: &LookupElements,
    blake_round: &LookupElements,
    blake_round_sigma: &LookupElements,
    memory_address_to_id: &LookupElements,
    memory_id_to_big: &LookupElements,
    range_check_7_2_5: &LookupElements,
) -> bool {
    &&& blake_g.wf()
    &&& blake_round.wf()
    &&& blake_round_sigma.wf()
    &&& memory_address_to_id.wf()
    &&& memory_id_to_big.wf()
    &&& range_check_7_2_5.wf()
}

/// The denominators of a row's lookups, in pairing order.
fn row_denominators(
    blake_g: &LookupElements,
    blake_round: &LookupElements,
    blake_round_sigma: &LookupElements,
    memory_address_to_id: &LookupElements,
    memory_id_to_big: &LookupElements,
    range_check_7_2_5: &LookupElements,
    l: &RowLookupData,
) -> (d: Vec<QM31>)
    requires
        relations_wf(
            blake_g,
            blake_round,
            blake_round_sigma,
            memory_address_to_id,
            memory_id_to_big,
            range_check_7_2_5,
        ),
        l.has_shape(),
    ensures
        d@ == lookup_denominators(
            *blake_g,
            *blake_round,
            *blake_round_sigma,
            *memory_address_to_id,
            *memory_id_to_big,
            *range_check_7_2_5,
            *l,
        ),
        forall|i: int| 0 <= i < d@.len() ==> qm31_wf(#[trigger] d@[i]),
{
    let ghost spec_d = lookup_denominators(
        *blake_g,
        *blake_round,
        *blake_round_sigma,
        *memory_address_to_id,
        *memory_id_to_big,
        *range_check_7_2_5,
        *l,
    );
    let mut d: Vec<QM31> = Vec::new();
    d.push(blake_round_sigma.combine(&l.blake_round_sigma_0));
    let mut k: usize = 0;
    while k < 16
        invariant
            k <= 16,
            l.has_shape(),
            relations_wf(
                blake_g,
                blake_round,
                blake_round_sigma,
                memory_address_to_id,
                memory_id_to_big,
                range_check_7_2_5,
            ),
            spec_d == lookup_denominators(
                *blake_g,
                *blake_round,
                *blake_round_sigma,
                *memory_address_to_id,
                *memory_id_to_big,
                *range_check_7_2_5,
                *l,
            ),
            d@.len() == 1 + 3 * k,
            forall|i: int| 0 <= i < d@.len() ==> #[trigger] d@[i] == spec_d[i],
            forall|i: int| 0 <= i < d@.len() ==> qm31_wf(#[trigger] d@[i]),
        decreases 16 - k,
    {
        let base = d.len();
        d.push(range_check_7_2_5.combine(&l.range_check_7_2_5[k]));
        d.push(memory_address_to_id.combine(&l.memory_address_to_id[k]));
        d.push(memory_id_to_big.combine(&l.memory_id_to_big[k]));
        assert forall|i: int| 0 <= i < d@.len() implies #[trigger] d@[i] == spec_d[i] by {
            if i >= base {
                assert((i - 1) / 3 == k && (i - 1) % 3 == i - base);
            }
        }
        k = k + 1;
    }
    let mut j: usize = 0;
    while j < 8
        invariant
            j <= 8,
            l.has_shape(),
            relations_wf(
                blake_g,
                blake_round,
                blake_round_sigma,
                memory_address_to_id,
                memory_id_to_big,
                range_check_7_2_5,
            ),
            spec_d == lookup_denominators(
                *blake_g,
                *blake_round,
                *blake_round_sigma,
                *memory_address_to_id,
                *memory_id_to_big,
                *range_check_7_2_5,
                *l,
            ),
            d@.len() == 49 + j,
            forall|i: int| 0 <= i < d@.len() ==> #[trigger] d@[i] == spec_d[i],
            forall|i: int| 0 <= i < d@.len() ==> qm31_wf(#[trigger] d@[i]),
        decreases 8 - j,
    {
        d.push(blake_g.combine(&l.blake_g[j]));
        j = j + 1;
    }
    d.push(blake_round.combine(&l.blake_round_0));
    assert(d@ =~= spec_d);
    d
}

/// Fraction sum.
fn fraction_add(x: &Fraction, y: &Fraction) -> (r: Fraction)
    requires
        qm31_wf(x.numerator),
        qm31_wf(x.denominator),
        qm31_wf(y.numerator),
        qm31_wf(y.denominator),
    ensures
        r == fraction_add_spec(*x, *y),
        qm31_wf(r.numerator),
        qm31_wf(r.denominator),
{
    let a = x.numerator.mul(&y.denominator);
    let b = y.numerator.mul(&x.denominator);
    Fraction { numerator: a.add(&b), denominator: x.denominator.mul(&y.denominator) }
}

/// Both parts of a fraction are canonical.
pub open spec fn fraction_wf(f: Fraction) -> bool {
    qm31_wf(f.numerator) && qm31_wf(f.denominator)
}

/// The 30 interaction fractions of a row.
fn row_fraction_values(
    blake_g: &LookupElements,
    blake_round: &LookupElements,
    blake_round_sigma: &LookupElements,
    memory_address_to_id: &LookupElements,
    memory_id_to_big: &LookupElements,
    range_check_7_2_5: &LookupElements,
    l: &RowLookupData,
    enabler: u32,
) -> (f: Vec<Fraction>)
    requires
        relations_wf(
            blake_g,
            blake_round,
            blake_round_sigma,
            memory_address_to_id,
            memory_id_to_big,
            range_check_7_2_5,
        ),
        l.has_shape(),
    ensures
        f@ == row_fractions(
            *blake_g,
            *blake_round,
            *blake_round_sigma,
            *memory_address_to_id,
            *memory_id_to_big,
            *range_check_7_2_5,
            *l,
            enabler,
        ),
        forall|i: int| 0 <= i < f@.len() ==> fraction_wf(#[trigger] f@[i]),
{
    reveal(row_fractions);
    let ghost spec_f = row_fractions(
        *blake_g,
        *blake_round,
        *blake_round_sigma,
        *memory_address_to_id,
        *memory_id_to_big,
        *range_check_7_2_5,
        *l,
        enabler,
    );
    let d = row_denominators(
        blake_g,
        blake_round,
        blake_round_sigma,
        memory_address_to_id,
        memory_id_to_big,
        range_check_7_2_5,
        l,
    );
    let ghost ds = d@;
    assert(spec_f.len() == 30);
    assert forall|i: int| 0 <= i < 28 implies #[trigger] spec_f[i] == (Fraction {
        numerator: qm31_add_spec(ds[2 * i], ds[2 * i + 1]),
        denominator: qm31_mul_spec(ds[2 * i], ds[2 * i + 1]),
    }) by {
    }
    let mut f: Vec<Fraction> = Vec::new();
    let mut c: usize = 0;
    while c < 28
        invariant
            c <= 28,
            d@.len() == 58,
            ds == d@,
            forall|i: int| 0 <= i < d@.len() ==> qm31_wf(#[trigger] d@[i]),
            spec_f.len() == 30,
            forall|i: int| 0 <= i < 28 ==> #[trigger] spec_f[i] == (Fraction {
                numerator: qm31_add_spec(ds[2 * i], ds[2 * i + 1]),
                denominator: qm31_mul_spec(ds[2 * i], ds[2 * i + 1]),
            }),
            f@.len() == c,
            forall|i: int| 0 <= i < c ==> #[trigger] f@[i] == spec_f[i],
            forall|i: int| 0 <= i < c ==> fraction_wf(#[trigger] f@[i]),
        decreases 28 - c,
    {
        let d0 = d[2 * c];
        let d1 = d[2 * c + 1];
        f.push(Fraction { numerator: d0.add(&d1), denominator: d0.mul(&d1) });
        c = c + 1;
    }
    let d0 = d[56];
    let d1 = d[57];
    f.push(Fraction { numerator: d0.scale(enabler).add(&d1), denominator: d0.mul(&d1) });
    let minus_one = QM31::one().neg();
    f.push(
        Fraction {
            numerator: minus_one.scale(enabler),
            denominator: blake_round.combine(&l.blake_round_1),
        },
    );
    assert(f@ =~= spec_f);
    f
}

/// `acc` plus the fractions of `fs`, added left to right.
fn accumulate(acc: &Fraction, fs: &Vec<Fraction>) -> (r: Fraction)
    requires
        fraction_wf(*acc),
        forall|i: int| 0 <= i < fs@.len() ==> fraction_wf(#[trigger] fs@[i]),
    ensures
        r == sum_fractions_from(*acc, fs@),
        fraction_wf(r),
{
    let mut sum = *acc;
    let mut c: usize = 0;
    while c < fs.len()
        invariant
            c <= fs@.len(),
            forall|i: int| 0 <= i < fs@.len() ==> fraction_wf(#[trigger] fs@[i]),
            fraction_wf(sum),
            sum == sum_fractions_from(*acc, fs@.take(c as int)),
        decreases fs@.len() - c,
    {
        let next = fraction_add(&sum, &fs[c]);
        assert(fs@.take(c + 1).drop_last() =~= fs@.take(c as int));
        sum = next;
        c = c + 1;
    }
    assert(fs@.take(fs@.len() as int) =~= fs@);
    sum
}

impl InteractionClaimGenerator {
    /// Every row of lookup data has sixteen reads and eight G steps.
    pub open spec fn wf(&self) -> bool {
        forall|r: int| 0 <= r < self.lookup_data@.len() ==> (#[trigger] self.lookup_data@[r]).has_shape()
    }

    /// Writes the interaction fractions of every row (row `r` with enabler 1
    /// exactly when `r < n_rows`), and the claimed sum: the sum of all these
    /// fractions, whenever the denominator of that sum is invertible (its
    /// norm down to the base field is nonzero).
    pub fn write_interaction_trace(
        self,
        blake_g: &LookupElements,
        blake_round: &LookupElements,
        blake_round_sigma: &LookupElements,
        memory_address_to_id: &LookupElements,
        memory_id_to_big: &LookupElements,
        range_check_7_2_5: &LookupElements,
    ) -> (res: (Vec<Vec<Fraction>>, Option<InteractionClaim>))
        requires
            self.wf(),
            relations_wf(
                blake_g,
                blake_round,
                blake_round_sigma,
                memory_address_to_id,
                memory_id_to_big,
                range_check_7_2_5,
            ),
        ensures
            ({
                let (rows, claim) = res;
                &&& rows@.len() == self.lookup_data@.len()
                &&& forall|r: int|
                    0 <= r < rows@.len() ==> (#[trigger] rows@[r])@ == row_fractions(
                        *blake_g,
                        *blake_round,
                        *blake_round_sigma,
                        *memory_address_to_id,
                        *memory_id_to_big,
                        *range_check_7_2_5,
                        self.lookup_data@[r],
                        enabler_at(self.n_rows as nat, r),
                    )
                &&& (claim is Some <==> cm31_norm_spec(
                    qm31_norm_spec(total_fraction(rows@).denominator),
                ) != 0)
                &&& claim matches Some(c) ==> exists|inv: QM31|
                    #[trigger] qm31_mul_spec(total_fraction(rows@).denominator, inv) == qm31_one()
                        && c.claimed_sum == qm31_mul_spec(total_fraction(rows@).numerator, inv)
            }),
    {
        let ghost lookups = self.lookup_data@;
        let mut rows: Vec<Vec<Fraction>> = Vec::new();
        let mut acc = Fraction { numerator: QM31::zero(), denominator: QM31::one() };
        let mut r: usize = 0;
        while r < self.lookup_data.len()
            invariant
                r <= lookups.len(),
                lookups == self.lookup_data@,
                self.wf(),
                relations_wf(
                    blake_g,
                    blake_round,
                    blake_round_sigma,
                    memory_address_to_id,
                    memory_id_to_big,
                    range_check_7_2_5,
                ),
                rows@.len() == r,
                forall|q: int|
                    0 <= q < r ==> (#[trigger] rows@[q])@ == row_fractions(
                        *blake_g,
                        *blake_round,
                        *blake_round_sigma,
                        *memory_address_to_id,
                        *memory_id_to_big,
                        *range_check_7_2_5,
                        lookups[q],
                        enabler_at(self.n_rows as nat, q),
                    ),
                fraction_wf(acc),
                acc == total_fraction(rows@),
            decreases lookups.len() - r,
        {
            let enabler: u32 = if r < self.n_rows {
                1
            } else {
                0
            };
            let fs = row_fraction_values(
                blake_g,
                blake_round,
                blake_round_sigma,
                memory_address_to_id,
                memory_id_to_big,
                range_check_7_2_5,
                &self.lookup_data[r],
                enabler,
            );
            acc = accumulate(&acc, &fs);
            let ghost old_rows = rows@;
            rows.push(fs);
            assert(rows@.map_values(|v: Vec<Fraction>| v@).drop_last() =~= old_rows.map_values(
                |v: Vec<Fraction>| v@,
            ));
            assert(rows@.map_values(|v: Vec<Fraction>| v@).last() == fs@);
            r = r + 1;
        }
        let claim = match acc.denominator.try_inverse() {
            Some(inv) => Some(InteractionClaim { claimed_sum: acc.numerator.mul(&inv) }),
            None => None,
        };
        (rows, claim)
    }
}

/// The multiplicity of a row's lookup `i` in pairing order (0..58 as in
/// `lookup_denominators`, 58 the round output): every lookup of a
/// sub-component is used once, the round input is used `enabler` times and
/// the round output is yielded `enabler` times.
pub open spec fn lookup_multiplicity(i: int, enabler: u32) -> QM31 {
    if i < 57 {
        qm31_one()
    } else if i == 57 {
        qm31_scale_spec(qm31_one(), enabler)
    } else {
        qm31_scale_spec(qm31_neg_spec(qm31_one()), enabler)
    }
}

/// Each interaction column of a row is the sum of the fractions
/// `multiplicity / denominator` of the lookups it pairs, and the last column
/// is the round output's fraction: the columns of a row sum to the logup sum
/// of the row's lookups.
pub proof fn lemma_row_fractions_are_lookup_sums(
    blake_g: LookupElements,
    blake_round: LookupElements,
    blake_round_sigma: LookupElements,
    memory_address_to_id: LookupElements,
    memory_id_to_big: LookupElements,
    range_check_7_2_5: LookupElements,
    l: RowLookupData,
    enabler: u32,
)
    ensures
        ({
            let d = lookup_denominators(
                blake_g,
                blake_round,
                blake_round_sigma,
                memory_address_to_id,
                memory_id_to_big,
                range_check_7_2_5,
                l,
            );
            let f = row_fractions(
                blake_g,
                blake_round,
                blake_round_sigma,
                memory_address_to_id,
                memory_id_to_big,
                range_check_7_2_5,
                l,
                enabler,
            );
            &&& f.len() == 30
            &&& forall|c: int|
                0 <= c < 29 ==> #[trigger] f[c] == fraction_add_spec(
                    Fraction { numerator: lookup_multiplicity(2 * c, enabler), denominator: d[2 * c] },
                    Fraction {
                        numerator: lookup_multiplicity(2 * c + 1, enabler),
                        denominator: d[2 * c + 1],
                    },
                )
            &&& f[29] == Fraction {
                numerator: lookup_multiplicity(58, enabler),
                denominator: combine_spec(blake_round, l.blake_round_1@),
            }
        }),
{
    reveal(row_fractions);
    let d = lookup_denominators(
        blake_g,
        blake_round,
        blake_round_sigma,
        memory_address_to_id,
        memory_id_to_big,
        range_check_7_2_5,
        l,
    );
    let f = row_fractions(
        blake_g,
        blake_round,
        blake_round_sigma,
        memory_address_to_id,
        memory_id_to_big,
        range_check_7_2_5,
        l,
        enabler,
    );
    assert(d.len() == 58);
    assert forall|i: int| 0 <= i < 58 implies qm31_wf(#[trigger] d[i]) by {
    }
    assert forall|c: int| 0 <= c < 29 implies #[trigger] f[c] == fraction_add_spec(
        Fraction { numerator: lookup_multiplicity(2 * c, enabler), denominator: d[2 * c] },
        Fraction { numerator: lookup_multiplicity(2 * c + 1, enabler), denominator: d[2 * c + 1] },
    ) by {
        let d0 = d[2 * c];
        let d1 = d[2 * c + 1];
        assert(qm31_wf(d0) && qm31_wf(d1));
        crate::qm31::lemma_qm31_one_mul(d0);
        crate::qm31::lemma_qm31_one_mul(d1);
        if c < 28 {
            crate::qm31::lemma_qm31_add_comm(d0, d1);
        } else {
            crate::qm31::lemma_qm31_embedded_mul(enabler, d0);
            crate::qm31::lemma_qm31_add_comm(qm31_scale_spec(d0, enabler), d1);
        }
    }
}

/// `1 / d`: a lookup with denominator `d` used once.
pub open spec fn unit_fraction(d: QM31) -> Fraction {
    Fraction { numerator: qm31_one(), denominator: d }
}

/// Which lookups each interaction column pairs, each denominator formed with
/// its own relation's elements: column 0 sums the schedule lookup and the
/// range check of read 0; the next 24 columns run through the reads in order,
/// taking per read its range check, its address-to-id lookup and its
/// id-to-value lookup, two lookups per column (so column 1 holds the address
/// and value lookups of read 0, column 2 the range check and address lookup
/// of read 1, column 3 the value lookup of read 1 and the range check of
/// read 2, and so on); column 24 pairs the value lookup of read 15 with G
/// step 0; columns 25..28 pair the G steps two by two; column 28 pairs G step
/// 7 with the round input taken `enabler` times; column 29 yields the round
/// output `enabler` times.
pub proof fn lemma_interaction_columns(
    blake_g: LookupElements,
    blake_round: LookupElements,
    blake_round_sigma: LookupElements,
    memory_address_to_id: LookupElements,
    memory_id_to_big: LookupElements,
    range_check_7_2_5: LookupElements,
    l: RowLookupData,
    enabler: u32,
)
    ensures
        ({
            let f = row_fractions(
                blake_g,
                blake_round,
                blake_round_sigma,
                memory_address_to_id,
                memory_id_to_big,
                range_check_7_2_5,
                l,
                enabler,
            );
            let rc = views(l.range_check_7_2_5@);
            let addr = views(l.memory_address_to_id@);
            let big = views(l.memory_id_to_big@);
            let g = views(l.blake_g@);
            &&& f.len() == 30
            &&& f[0] == fraction_add_spec(
                unit_fraction(combine_spec(blake_round_sigma, l.blake_round_sigma_0@)),
                unit_fraction(combine_spec(range_check_7_2_5, rc[0])),
            )
            &&& forall|c: int|
                1 <= c < 24 && c % 3 == 1 ==> #[trigger] f[c] == fraction_add_spec(
                    unit_fraction(combine_spec(memory_address_to_id, addr[2 * ((c - 1) / 3)])),
                    unit_fraction(combine_spec(memory_id_to_big, big[2 * ((c - 1) / 3)])),
                )
            &&& forall|c: int|
                1 <= c < 24 && c % 3 == 2 ==> #[trigger] f[c] == fraction_add_spec(
                    unit_fraction(combine_spec(range_check_7_2_5, rc[2 * ((c - 2) / 3) + 1])),
                    unit_fraction(
                        combine_spec(memory_address_to_id, addr[2 * ((c - 2) / 3) + 1]),
                    ),
                )
            &&& forall|c: int|
                1 <= c < 24 && c % 3 == 0 ==> #[trigger] f[c] == fraction_add_spec(
                    unit_fraction(combine_spec(memory_id_to_big, big[2 * (c / 3) - 1])),
                    unit_fraction(combine_spec(range_check_7_2_5, rc[2 * (c / 3)])),
                )
            &&& f[24] == fraction_add_spec(
                unit_fraction(combine_spec(memory_id_to_big, big[15])),
                unit_fraction(combine_spec(blake_g, g[0])),
            )
            &&& forall|c: int|
                25 <= c < 28 ==> #[trigger] f[c] == fraction_add_spec(
                    unit_fraction(combine_spec(blake_g, g[2 * c - 49])),
                    unit_fraction(combine_spec(blake_g, g[2 * c - 48])),
                )
            &&& f[28] == fraction_add_spec(
                unit_fraction(combine_spec(blake_g, g[7])),
                Fraction {
                    numerator: qm31_scale_spec(qm31_one(), enabler),
                    denominator: combine_spec(blake_round, l.blake_round_0@),
                },
            )
            &&& f[29] == Fraction {
                numerator: qm31_scale_spec(qm31_neg_spec(qm31_one()), enabler),
                denominator: combine_spec(blake_round, l.blake_round_1@),
            }
        }),
{
    lemma_row_fractions_are_lookup_sums(
        blake_g,
        blake_round,
        blake_round_sigma,
        memory_address_to_id,
        memory_id_to_big,
        range_check_7_2_5,
        l,
        enabler,
    );
    let d = lookup_denominators(
        blake_g,
        blake_round,
        blake_round_sigma,
        memory_address_to_id,
        memory_id_to_big,
        range_check_7_2_5,
        l,
    );
    let f = row_fractions(
        blake_g,
        blake_round,
        blake_round_sigma,
        memory_address_to_id,
        memory_id_to_big,
        range_check_7_2_5,
        l,
        enabler,
    );
    let rc = views(l.range_check_7_2_5@);
    let addr = views(l.memory_address_to_id@);
    let big = views(l.memory_id_to_big@);
    let g = views(l.blake_g@);
    assert(d.len() == 58);
    assert forall|i: int| 1 <= i < 49 implies #[trigger] d[i] == (if (i - 1) % 3 == 0 {
        combine_spec(range_check_7_2_5, rc[(i - 1) / 3])
    } else if (i - 1) % 3 == 1 {
        combine_spec(memory_address_to_id, addr[(i - 1) / 3])
    } else {
        combine_spec(memory_id_to_big, big[(i - 1) / 3])
    }) by {}
    assert forall|j: int| 0 <= j < 8 implies #[trigger] d[49 + j] == combine_spec(blake_g, g[j]) by {}
    assert forall|c: int| 1 <= c < 24 && c % 3 == 1 implies #[trigger] f[c] == fraction_add_spec(
        unit_fraction(combine_spec(memory_address_to_id, addr[2 * ((c - 1) / 3)])),
        unit_fraction(combine_spec(memory_id_to_big, big[2 * ((c - 1) / 3)])),
    ) by {
        let m = (c - 1) / 3;
        assert(2 * c - 1 == 3 * (2 * m) + 1);
        assert((2 * c - 1) % 3 == 1 && (2 * c - 1) / 3 == 2 * m);
        assert((2 * c + 1 - 1) % 3 == 2 && (2 * c + 1 - 1) / 3 == 2 * m);
        assert(d[2 * c] == combine_spec(memory_address_to_id, addr[2 * m]));
        assert(d[2 * c + 1] == combine_spec(memory_id_to_big, big[2 * m]));
    }
    assert forall|c: int| 1 <= c < 24 && c % 3 == 2 implies #[trigger] f[c] == fraction_add_spec(
        unit_fraction(combine_spec(range_check_7_2_5, rc[2 * ((c - 2) / 3) + 1])),
        unit_fraction(combine_spec(memory_address_to_id, addr[2 * ((c - 2) / 3) + 1])),
    ) by {
        let m = (c - 2) / 3;
        assert(2 * c - 1 == 3 * (2 * m + 1));
        assert((2 * c - 1) % 3 == 0 && (2 * c - 1) / 3 == 2 * m + 1);
        assert((2 * c + 1 - 1) % 3 == 1 && (2 * c + 1 - 1) / 3 == 2 * m + 1);
        assert(d[2 * c] == combine_spec(range_check_7_2_5, rc[2 * m + 1]));
        assert(d[2 * c + 1] == combine_spec(memory_address_to_id, addr[2 * m + 1]));
    }
    assert forall|c: int| 1 <= c < 24 && c % 3 == 0 implies #[trigger] f[c] == fraction_add_spec(
        unit_fraction(combine_spec(memory_id_to_big, big[2 * (c / 3) - 1])),
        unit_fraction(combine_spec(range_check_7_2_5, rc[2 * (c / 3)])),
    ) by {
        let m = c / 3;
        assert(2 * c - 1 == 3 * (2 * m - 1) + 2);
        assert((2 * c - 1) % 3 == 2 && (2 * c - 1) / 3 == 2 * m - 1);
        assert((2 * c + 1 - 1) % 3 == 0 && (2 * c + 1 - 1) / 3 == 2 * m);
        assert(d[2 * c] == combine_spec(memory_id_to_big, big[2 * m - 1]));
        assert(d[2 * c + 1] == combine_spec(range_check_7_2_5, rc[2 * m]));
    }
    assert(d[48] == combine_spec(memory_id_to_big, big[15]));
    assert(d[49] == combine_spec(blake_g, g[0]));
    assert(f[24] == fraction_add_spec(
        unit_fraction(combine_spec(memory_id_to_big, big[15])),
        unit_fraction(combine_spec(blake_g, g[0])),
    ));
    assert forall|c: int| 25 <= c < 28 implies #[trigger] f[c] == fraction_add_spec(
        unit_fraction(combine_spec(blake_g, g[2 * c - 49])),
        unit_fraction(combine_spec(blake_g, g[2 * c - 48])),
    ) by {
        assert(d[49 + (2 * c - 49)] == combine_spec(blake_g, g[2 * c - 49]));
        assert(d[49 + (2 * c - 48)] == combine_spec(blake_g, g[2 * c - 48]));
    }
    assert(d[56] == combine_spec(blake_g, g[7]));
}

/// Two fractions are equal as field values: `a / b` and `c / d` with
/// `a d = c b`.
pub open spec fn fraction_equiv(f: Fraction, g: Fraction) -> bool {
    qm31_mul_spec(f.numerator, g.denominator) == qm31_mul_spec(g.numerator, f.denominator)
}

/// Adding equal fractions gives equal fractions.
pub proof fn lemma_fraction_add_equiv(f1: Fraction, f2: Fraction, g1: Fraction, g2: Fraction)
    requires
        fraction_wf(f1),
        fraction_wf(f2),
        fraction_wf(g1),
        fraction_wf(g2),
        fraction_equiv(f1, f2),
        fraction_equiv(g1, g2),
    ensures
        fraction_equiv(fraction_add_spec(f1, g1), fraction_add_spec(f2, g2)),
        fraction_wf(fraction_add_spec(f1, g1)),
{
    let (a, b, c, d) = (f1.numerator, f1.denominator, g1.numerator, g1.denominator);
    let (a2, b2, c2, d2) = (f2.numerator, f2.denominator, g2.numerator, g2.denominator);
    let ad = qm31_mul_spec(a, d);
    let cb = qm31_mul_spec(c, b);
    let bd = qm31_mul_spec(b, d);
    let a2d2 = qm31_mul_spec(a2, d2);
    let c2b2 = qm31_mul_spec(c2, b2);
    let b2d2 = qm31_mul_spec(b2, d2);
    // Left: (a d + c b)(b2 d2) = (a b2)(d d2) + (c d2)(b b2).
    lemma_qm31_mul_comm(qm31_add_spec(ad, cb), b2d2);
    lemma_qm31_mul_distrib(b2d2, ad, cb);
    lemma_qm31_mul_comm(b2d2, ad);
    lemma_qm31_mul_swap(a, d, b2, d2);
    lemma_qm31_mul_comm(b2d2, cb);
    lemma_qm31_mul_comm(b2, d2);
    lemma_qm31_mul_swap(c, b, d2, b2);
    // Right: (a2 d2 + c2 b2)(b d) = (a2 b)(d2 d) + (c2 d)(b2 b).
    lemma_qm31_mul_comm(qm31_add_spec(a2d2, c2b2), bd);
    lemma_qm31_mul_distrib(bd, a2d2, c2b2);
    lemma_qm31_mul_comm(bd, a2d2);
    lemma_qm31_mul_swap(a2, d2, b, d);
    lemma_qm31_mul_comm(bd, c2b2);
    lemma_qm31_mul_comm(b, d);
    lemma_qm31_mul_swap(c2, b2, d, b);
    lemma_qm31_mul_comm(d2, d);
    lemma_qm31_mul_comm(b2, b);
    // a b2 = a2 b and c d2 = c2 d.
    assert(qm31_mul_spec(a, b2) == qm31_mul_spec(a2, b));
    assert(qm31_mul_spec(c, d2) == qm31_mul_spec(c2, d));
}

/// Summing pointwise equal fractions onto equal starting values gives equal
/// sums.
pub proof fn lemma_sum_fractions_equiv(acc1: Fraction, acc2: Fraction, fs1: Seq<Fraction>, fs2: Seq<Fraction>)
    requires
        fraction_wf(acc1),
        fraction_wf(acc2),
        fraction_equiv(acc1, acc2),
        fs1.len() == fs2.len(),
        forall|i: int| 0 <= i < fs1.len() ==> fraction_wf(#[trigger] fs1[i]),
        forall|i: int| 0 <= i < fs2.len() ==> fraction_wf(#[trigger] fs2[i]),
        forall|i: int| 0 <= i < fs1.len() ==> fraction_equiv(#[trigger] fs1[i], fs2[i]),
    ensures
        fraction_equiv(sum_fractions_from(acc1, fs1), sum_fractions_from(acc2, fs2)),
        fraction_wf(sum_fractions_from(acc1, fs1)),
        fraction_wf(sum_fractions_from(acc2, fs2)),
    decreases fs1.len(),
{
    if fs1.len() > 0 {
        let n = fs1.len() - 1;
        lemma_sum_fractions_equiv(acc1, acc2, fs1.drop_last(), fs2.drop_last());
        lemma_fraction_add_equiv(
            sum_fractions_from(acc1, fs1.drop_last()),
            sum_fractions_from(acc2, fs2.drop_last()),
            fs1[n],
            fs2[n],
        );
        lemma_fraction_add_equiv(
            sum_fractions_from(acc2, fs2.drop_last()),
            sum_fractions_from(acc1, fs1.drop_last()),
            fs2[n],
            fs1[n],
        );
    }
}

/// Summing rows of pointwise equal fractions gives equal sums.
pub proof fn lemma_sum_rows_equiv(rows1: Seq<Seq<Fraction>>, rows2: Seq<Seq<Fraction>>)
    requires
        rows1.len() == rows2.len(),
        forall|r: int| 0 <= r < rows1.len() ==> (#[trigger] rows1[r]).len() == rows2[r].len(),
        forall|r: int, c: int|
            0 <= r < rows1.len() && 0 <= c < rows1[r].len() ==> fraction_wf(#[trigger] rows1[r][c])
                && fraction_wf(rows2[r][c]) && fraction_equiv(rows1[r][c], rows2[r][c]),
    ensures
        fraction_equiv(sum_rows(rows1), sum_rows(rows2)),
        fraction_wf(sum_rows(rows1)),
        fraction_wf(sum_rows(rows2)),
    decreases rows1.len(),
{
    if rows1.len() == 0 {
        assert(fraction_equiv(fraction_zero(), fraction_zero()));
    } else {
        let n = rows1.len() - 1;
        lemma_sum_rows_equiv(rows1.drop_last(), rows2.drop_last());
        assert(rows1[n].len() == rows2[n].len());
        assert forall|i: int| 0 <= i < rows2[n].len() implies fraction_wf(#[trigger] rows2[n][i]) by {
            assert(0 <= n < rows1.len() && 0 <= i < rows1[n].len());
            assert(fraction_wf(rows1[n][i]) && fraction_wf(rows2[n][i]));
        }
        assert forall|i: int| 0 <= i < rows1[n].len() implies fraction_equiv(
            #[trigger] rows1[n][i],
            rows2[n][i],
        ) by {
            assert(fraction_wf(rows1[n][i]));
        }
        lemma_sum_fractions_equiv(sum_rows(rows1.drop_last()), sum_rows(rows2.drop_last()), rows1[n], rows2[n]);
    }
}

/// The two rows of lookup data agree except, perhaps, on the round input and
/// output entries.
pub open spec fn same_but_round_entries(l1: RowLookupData, l2: RowLookupData) -> bool {
    &&& l1.blake_round_sigma_0@ == l2.blake_round_sigma_0@
    &&& views(l1.range_check_7_2_5@) == views(l2.range_check_7_2_5@)
    &&& views(l1.memory_address_to_id@) == views(l2.memory_address_to_id@)
    &&& views(l1.memory_id_to_big@) == views(l2.memory_id_to_big@)
    &&& views(l1.blake_g@) == views(l2.blake_g@)
}

/// On a disabled row, the fractions do not depend on the round entries: row
/// by row they are equal as field values.
pub proof fn lemma_disabled_row_fractions_equiv(
    blake_g: LookupElements,
    blake_round: LookupElements,
    blake_round_sigma: LookupElements,
    memory_address_to_id: LookupElements,
    memory_id_to_big: LookupElements,
    range_check_7_2_5: LookupElements,
    l1: RowLookupData,
    l2: RowLookupData,
)
    requires
        same_but_round_entries(l1, l2),
    ensures
        ({
            let f1 = row_fractions(
                blake_g,
                blake_round,
                blake_round_sigma,
                memory_address_to_id,
                memory_id_to_big,
                range_check_7_2_5,
                l1,
                0,
            );
            let f2 = row_fractions(
                blake_g,
                blake_round,
                blake_round_sigma,
                memory_address_to_id,
                memory_id_to_big,
                range_check_7_2_5,
                l2,
                0,
            );
            &&& f1.len() == f2.len()
            &&& forall|c: int|
                0 <= c < f1.len() ==> fraction_wf(#[trigger] f1[c]) && fraction_wf(f2[c])
                    && fraction_equiv(f1[c], f2[c])
        }),
{
    reveal(row_fractions);
    let d1 = lookup_denominators(
        blake_g,
        blake_round,
        blake_round_sigma,
        memory_address_to_id,
        memory_id_to_big,
        range_check_7_2_5,
        l1,
    );
    let d2 = lookup_denominators(
        blake_g,
        blake_round,
        blake_round_sigma,
        memory_address_to_id,
        memory_id_to_big,
        range_check_7_2_5,
        l2,
    );
    let f1 = row_fractions(
        blake_g,
        blake_round,
        blake_round_sigma,
        memory_address_to_id,
        memory_id_to_big,
        range_check_7_2_5,
        l1,
        0,
    );
    let f2 = row_fractions(
        blake_g,
        blake_round,
        blake_round_sigma,
        memory_address_to_id,
        memory_id_to_big,
        range_check_7_2_5,
        l2,
        0,
    );
    assert(d1.len() == 58 && d2.len() == 58);
    assert forall|i: int| 0 <= i < 57 implies #[trigger] d1[i] == d2[i] by {
    }
    assert forall|i: int| 0 <= i < 58 implies qm31_wf(#[trigger] d1[i]) && qm31_wf(d2[i]) by {
    }
    assert forall|c: int| 0 <= c < 30 implies fraction_wf(#[trigger] f1[c]) && fraction_wf(f2[c])
        && fraction_equiv(f1[c], f2[c]) by {
        if c < 28 {
            assert(d1[2 * c] == d2[2 * c] && d1[2 * c + 1] == d2[2 * c + 1]);
            assert(f1[c] == f2[c]);
        } else if c == 28 {
            let g7 = d1[56];
            let r1 = d1[57];
            let r2 = d2[57];
            assert(d2[56] == g7);
            lemma_qm31_zero_laws(g7);
            lemma_qm31_zero_laws(r1);
            lemma_qm31_zero_laws(r2);
            assert(f1[c].numerator == r1);
            assert(f2[c].numerator == r2);
            // r1 (g7 r2) = r2 (g7 r1)
            lemma_qm31_mul_assoc(r1, g7, r2);
            lemma_qm31_mul_assoc(r2, g7, r1);
            lemma_qm31_mul_comm(r1, g7);
            lemma_qm31_mul_comm(r2, g7);
            lemma_qm31_mul_assoc(g7, r1, r2);
            lemma_qm31_mul_assoc(g7, r2, r1);
            lemma_qm31_mul_comm(r1, r2);
        } else {
            let minus_one = qm31_neg_spec(qm31_one());
            lemma_qm31_zero_laws(minus_one);
            lemma_qm31_zero_laws(f1[c].denominator);
            lemma_qm31_zero_laws(f2[c].denominator);
        }
    }
}

/// Padding rows add nothing to the claimed sum: two interaction phases whose
/// lookup data agree on the first `n_rows` rows, and past them agree except
/// on the round input and output entries, have equal fraction sums as field
/// values, and equal claimed sums wherever both are defined.
pub proof fn lemma_padding_rows_leave_claimed_sum(
    blake_g: LookupElements,
    blake_round: LookupElements,
    blake_round_sigma: LookupElements,
    memory_address_to_id: LookupElements,
    memory_id_to_big: LookupElements,
    range_check_7_2_5: LookupElements,
    l1: Seq<RowLookupData>,
    l2: Seq<RowLookupData>,
    n_rows: nat,
    rows1: Seq<Seq<Fraction>>,
    rows2: Seq<Seq<Fraction>>,
    claimed1: QM31,
    claimed2: QM31,
    inv1: QM31,
    inv2: QM31,
)
    requires
        l1.len() == l2.len(),
        rows1.len() == l1.len(),
        rows2.len() == l2.len(),
        forall|r: int| 0 <= r < l1.len() && r < n_rows ==> #[trigger] l1[r] == l2[r],
        forall|r: int|
            0 <= r < l1.len() && r >= n_rows ==> same_but_round_entries(#[trigger] l1[r], l2[r]),
        forall|r: int|
            0 <= r < rows1.len() ==> #[trigger] rows1[r] == row_fractions(
                blake_g,
                blake_round,
                blake_round_sigma,
                memory_address_to_id,
                memory_id_to_big,
                range_check_7_2_5,
                l1[r],
                enabler_at(n_rows, r),
            ),
        forall|r: int|
            0 <= r < rows2.len() ==> #[trigger] rows2[r] == row_fractions(
                blake_g,
                blake_round,
                blake_round_sigma,
                memory_address_to_id,
                memory_id_to_big,
                range_check_7_2_5,
                l2[r],
                enabler_at(n_rows, r),
            ),
        qm31_mul_spec(sum_rows(rows1).denominator, inv1) == qm31_one(),
        claimed1 == qm31_mul_spec(sum_rows(rows1).numerator, inv1),
        qm31_mul_spec(sum_rows(rows2).denominator, inv2) == qm31_one(),
        claimed2 == qm31_mul_spec(sum_rows(rows2).numerator, inv2),
        qm31_wf(inv1),
        qm31_wf(inv2),
    ensures
        fraction_equiv(sum_rows(rows1), sum_rows(rows2)),
        claimed1 == claimed2,
{
    assert forall|r: int| 0 <= r < rows1.len() implies (#[trigger] rows1[r]).len() == rows2[r].len()
        && forall|c: int|
        0 <= c < rows1[r].len() ==> fraction_wf(#[trigger] rows1[r][c]) && fraction_wf(rows2[r][c])
            && fraction_equiv(rows1[r][c], rows2[r][c]) by {
        reveal(row_fractions);
        if r < n_rows {
            assert(l1[r] == l2[r]);
            assert(rows1[r] == rows2[r]);
            assert forall|c: int| 0 <= c < rows1[r].len() implies fraction_wf(#[trigger] rows1[r][c])
                && fraction_wf(rows2[r][c]) && fraction_equiv(rows1[r][c], rows2[r][c]) by {
            }
        } else {
            assert(enabler_at(n_rows, r) == 0);
            lemma_disabled_row_fractions_equiv(
                blake_g,
                blake_round,
                blake_round_sigma,
                memory_address_to_id,
                memory_id_to_big,
                range_check_7_2_5,
                l1[r],
                l2[r],
            );
        }
    }
    lemma_sum_rows_equiv(rows1, rows2);
    // claimed1 = n1 i1 (d2 i2) = (n1 d2)(i1 i2) = (n2 d1)(i1 i2) = n2 i2 (d1 i1) = claimed2
    let (n1, d1) = (sum_rows(rows1).numerator, sum_rows(rows1).denominator);
    let (n2, d2) = (sum_rows(rows2).numerator, sum_rows(rows2).denominator);
    crate::qm31::lemma_qm31_one_mul(claimed1);
    crate::qm31::lemma_qm31_one_mul(claimed2);
    lemma_qm31_mul_comm(qm31_one(), claimed1);
    lemma_qm31_mul_comm(qm31_one(), claimed2);
    lemma_qm31_mul_swap(n1, inv1, d2, inv2);
    lemma_qm31_mul_comm(inv1, d2);
    lemma_qm31_mul_swap(n1, d2, inv1, inv2);
    lemma_qm31_mul_swap(n2, inv2, d1, inv1);
    lemma_qm31_mul_comm(inv2, d1);
    lemma_qm31_mul_swap(n2, d1, inv2, inv1);
    lemma_qm31_mul_comm(inv2, inv1);
    lemma_qm31_mul_comm(n2, d1);
    lemma_qm31_mul_comm(n1, d2);
}

} // verus!
