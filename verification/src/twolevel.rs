//! Steady-state populations of the two-level optical transition.
//!
//! With per-beam transition rate coefficients `R_i` and natural linewidth
//! `gamma`, the steady-state excited fraction is
//! `sum(R_i) / (gamma * 2 * pi + 2 * sum(R_i))`, guarded so that a
//! vanishing total rate yields exactly zero instead of a division by
//! zero.

use vstd::prelude::*;
use crate::fixed::MAXQ;
use crate::fixed::UNIT;
use crate::fixed::TWO_PI_FP;
use crate::fixed::floor_div128;
use crate::fixed::mul_unit;

verus! {

/// The transition rate coefficient contributed by one cooling beam,
/// fixed-point Hz; never negative.
#[derive(Debug, Clone, Copy, PartialEq, Eq, Structural)]
pub struct RateCoefficient {
    pub rate: i64,
}

impl RateCoefficient {
    pub open spec fn valid(self) -> bool {
        0 <= self.rate <= MAXQ
    }
}

/// The rate coefficients of all beams addressing one atom.
#[derive(Debug, Clone)]
pub struct RateCoefficients {
    pub contents: Vec<RateCoefficient>,
}

impl RateCoefficients {
    /// Bounded, non-negative per-beam rates; the beam count is bounded
    /// so that the total rate stays well inside the wide accumulator.
    pub open spec fn valid(self) -> bool {
        &&& self.contents@.len() <= 4096
        &&& forall|i: int| 0 <= i < self.contents@.len() ==> (#[trigger] self.contents@[i]).valid()
    }
}

/// Sum of the rate coefficients of a beam list.
pub open spec fn sum_rates(s: Seq<RateCoefficient>) -> int
    decreases s.len(),
{
    if s.len() == 0 {
        0
    } else {
        sum_rates(s.drop_last()) + s.last().rate
    }
}

/// The fixed-point linewidth term `gamma * 2 * pi` of the steady-state
/// denominator.
pub open spec fn spec_linewidth_term(linewidth: int) -> int {
    (linewidth * TWO_PI_FP) / (UNIT as int)
}

/// The steady-state excited fraction, at fixed-point scale:
/// `sum * UNIT / (gamma * 2 * pi + 2 * sum)`, and zero when the total
/// rate vanishes.
pub open spec fn spec_excited_fraction(linewidth: int, sum: int) -> int {
    if sum <= 0 {
        0
    } else {
        (sum * (UNIT as int)) / (spec_linewidth_term(linewidth) + 2 * sum)
    }
}

/// Represents the steady-state population density of the excited state
/// and ground state, as fixed-point fractions of one.
#[derive(Debug, Clone, Copy, PartialEq, Eq, Structural)]
pub struct TwoLevelPopulation {
    /// steady-state population density of the ground state, in [0, UNIT]
    pub ground: i64,
    /// steady-state population density of the excited state, in [0, UNIT]
    pub excited: i64,
}

impl TwoLevelPopulation {
    /// A fresh, not yet computed population: both fractions zero.
    pub fn new() -> (r: TwoLevelPopulation)
        ensures
            r.ground == 0,
            r.excited == 0,
    {
        TwoLevelPopulation { ground: 0, excited: 0 }
    }

    /// Calculate the ground state population from excited state
    /// population.
    pub fn calculate_ground_state(&mut self)
        requires
            0 <= old(self).excited <= UNIT,
        ensures
            final(self).ground == UNIT - old(self).excited,
            final(self).excited == old(self).excited,
    {
        self.ground = UNIT - self.excited;
    }

    /// Calculate the excited state population from ground state
    /// population.
    pub fn calculate_excited_state(&mut self)
        requires
            0 <= old(self).ground <= UNIT,
        ensures
            final(self).excited == UNIT - old(self).ground,
            final(self).ground == old(self).ground,
    {
        self.excited = UNIT - self.ground;
    }
}

/// Sums the rate coefficients of all beams addressing one atom; exact,
/// in a wide accumulator.
pub fn total_rate(rates: &RateCoefficients) -> (r: i128)
    requires
        rates.valid(),
    ensures
        r == sum_rates(rates.contents@),
        0 <= r <= rates.contents@.len() * MAXQ,
{
    let mut total: i128 = 0;
    let n = rates.contents.len();
    let mut i: usize = 0;
    while i < n
        invariant
            0 <= i <= n,
            n == rates.contents@.len(),
            rates.valid(),
            total == sum_rates(rates.contents@.subrange(0, i as int)),
            0 <= total <= i * MAXQ,
        decreases n - i,
    {
        proof {
            assert(rates.contents@.subrange(0, i + 1).drop_last()
                =~= rates.contents@.subrange(0, i as int));
            assert(rates.contents@.subrange(0, i + 1).last() == rates.contents@[i as int]);
        }
        total = total + rates.contents[i].rate as i128;
        i = i + 1;
    }
    proof {
        assert(rates.contents@.subrange(0, n as int) =~= rates.contents@);
    }
    total
}

/// Computes the steady-state excited fraction from the linewidth and the
/// exact total rate.
pub fn excited_fraction(linewidth: i64, sum: i128) -> (r: i64)
    requires
        1 <= linewidth <= MAXQ,
        0 <= sum <= 0x4000_0000_0000_0000_0000_0000,
    ensures
        r == spec_excited_fraction(linewidth as int, sum as int),
        0 <= r <= UNIT / 2,
{
    if sum == 0 {
        return 0;
    }
    let term: i64 = mul_unit(linewidth, TWO_PI_FP);
    proof {
        assert(term >= 1) by {
            assert(linewidth as int * TWO_PI_FP as int >= TWO_PI_FP as int) by (nonlinear_arith)
                requires linewidth >= 1;
            vstd::arithmetic::div_mod::lemma_div_is_ordered(
                TWO_PI_FP as int, linewidth as int * TWO_PI_FP as int, UNIT as int);
        };
        assert(term <= MAXQ as int * TWO_PI_FP as int);
    }
    proof {
        assert(sum as int * UNIT as int <= 0x4000_0000_0000_0000_0000_0000 * (UNIT as int))
            by (nonlinear_arith)
            requires 0 <= sum <= 0x4000_0000_0000_0000_0000_0000;
    }
    let num: i128 = sum * (UNIT as i128);
    let den: i128 = (term as i128) + 2 * sum;
    let q: i128 = floor_div128(num, den);
    proof {
        lemma_fraction_below_half(num as int, den as int, sum as int, term as int);
    }
    q as i64
}

/// The excited fraction never reaches one half: the numerator
/// `sum * UNIT` divided by a denominator of at least `2 * sum` is at
/// most `UNIT / 2`.
proof fn lemma_fraction_below_half(num: int, den: int, sum: int, term: int)
    requires
        sum >= 1,
        term >= 1,
        num == sum * (UNIT as int),
        den == term + 2 * sum,
    ensures
        0 <= num / den <= UNIT / 2,
{
    vstd::arithmetic::div_mod::lemma_div_pos_is_pos(num, den);
    assert(num / den <= num / (2 * sum)) by {
        vstd::arithmetic::div_mod::lemma_div_is_ordered_by_denominator(num, 2 * sum, den);
    };
    assert(num / (2 * sum) == (UNIT as int) / 2) by {
        vstd::arithmetic::div_mod::lemma_div_denominator(num, sum, 2);
        assert(num / sum == UNIT as int) by {
            vstd::arithmetic::mul::lemma_mul_is_commutative(sum, UNIT as int);
            vstd::arithmetic::div_mod::lemma_div_multiples_vanish(UNIT as int, sum);
        };
    };
}

/// Law: for every positive linewidth and every non-negative total rate,
/// the excited fraction lies in `[0, 1)` (at fixed-point scale,
/// `[0, UNIT)`); it is exactly zero for a vanishing total rate, and it is
/// bounded by `sum * UNIT / (gamma * 2 * pi)`, so it tends to zero with
/// the total rate.
pub proof fn lemma_excited_fraction_in_range(linewidth: int, sum: int)
    requires
        1 <= linewidth,
        0 <= sum,
    ensures
        0 <= spec_excited_fraction(linewidth, sum) <= UNIT / 2 < UNIT,
        sum == 0 ==> spec_excited_fraction(linewidth, sum) == 0,
        spec_excited_fraction(linewidth, sum)
            <= (sum * (UNIT as int)) / spec_linewidth_term(linewidth),
{
    lemma_linewidth_term_pos(linewidth);
    let term = spec_linewidth_term(linewidth);
    if sum > 0 {
        let num = sum * (UNIT as int);
        let den = term + 2 * sum;
        lemma_fraction_below_half(num, den, sum, term);
        assert(num >= 0) by (nonlinear_arith)
            requires sum >= 0 && num == sum * (UNIT as int);
        vstd::arithmetic::div_mod::lemma_div_is_ordered_by_denominator(num, term, den);
    } else {
        assert((0 * (UNIT as int)) / term == 0) by {
            vstd::arithmetic::div_mod::lemma_div_of0(term);
        };
    }
}

/// The linewidth term of the denominator is at least one for every
/// positive linewidth.
proof fn lemma_linewidth_term_pos(linewidth: int)
    requires
        1 <= linewidth,
    ensures
        1 <= spec_linewidth_term(linewidth) <= linewidth * (TWO_PI_FP as int),
{
    assert(linewidth * TWO_PI_FP as int >= TWO_PI_FP as int) by (nonlinear_arith)
        requires linewidth >= 1;
    vstd::arithmetic::div_mod::lemma_div_is_ordered(
        TWO_PI_FP as int, linewidth * TWO_PI_FP as int, UNIT as int);
    vstd::arithmetic::div_mod::lemma_div_pos_is_pos(linewidth * TWO_PI_FP as int, UNIT as int);
    vstd::arithmetic::div_mod::lemma_div_nonincreasing(
        linewidth * TWO_PI_FP as int, UNIT as int);
}

/// Two non-negative fractions with positive denominators compare as
/// their cross products do.
proof fn lemma_div_cross(a1: int, b1: int, a2: int, b2: int)
    requires
        0 <= a1,
        0 <= a2,
        1 <= b1,
        1 <= b2,
        a1 * b2 <= a2 * b1,
    ensures
        a1 / b1 <= a2 / b2,
{
    let q1 = a1 / b1;
    let r1 = a1 % b1;
    let q2 = a2 / b2;
    let r2 = a2 % b2;
    vstd::arithmetic::div_mod::lemma_fundamental_div_mod(a1, b1);
    vstd::arithmetic::div_mod::lemma_fundamental_div_mod(a2, b2);
    vstd::arithmetic::div_mod::lemma_div_pos_is_pos(a1, b1);
    vstd::arithmetic::div_mod::lemma_div_pos_is_pos(a2, b2);
    if q1 > q2 {
        assert(a1 * b2 >= (b1 * q1) * b2) by (nonlinear_arith)
            requires a1 == b1 * q1 + r1 && r1 >= 0 && b2 >= 1;
        assert((b1 * q1) * b2 >= (b1 * b2) * (q2 + 1)) by (nonlinear_arith)
            requires q1 >= q2 + 1 && b1 >= 1 && b2 >= 1 && q2 >= 0;
        assert(a2 * b1 < (b1 * b2) * (q2 + 1)) by (nonlinear_arith)
            requires a2 == b2 * q2 + r2 && r2 < b2 && b1 >= 1 && b2 >= 1;
        assert(false);
    }
}

/// Law: the steady-state excited fraction increases monotonically with
/// the total rate.
pub proof fn lemma_excited_fraction_monotone(linewidth: int, s1: int, s2: int)
    requires
        1 <= linewidth,
        0 <= s1 <= s2,
    ensures
        spec_excited_fraction(linewidth, s1) <= spec_excited_fraction(linewidth, s2),
{
    lemma_linewidth_term_pos(linewidth);
    let term = spec_linewidth_term(linewidth);
    if s1 <= 0 {
        lemma_excited_fraction_in_range(linewidth, s2);
    } else {
        let a1 = s1 * (UNIT as int);
        let b1 = term + 2 * s1;
        let a2 = s2 * (UNIT as int);
        let b2 = term + 2 * s2;
        assert(a1 * b2 <= a2 * b1) by (nonlinear_arith)
            requires
                a1 == s1 * (UNIT as int) && b1 == term + 2 * s1 && a2 == s2 * (UNIT as int)
                    && b2 == term + 2 * s2 && 0 <= s1 <= s2 && term >= 1;
        assert(a1 >= 0) by (nonlinear_arith)
            requires s1 >= 0 && a1 == s1 * (UNIT as int);
        assert(a2 >= 0) by (nonlinear_arith)
            requires s2 >= 0 && a2 == s2 * (UNIT as int);
        lemma_div_cross(a1, b1, a2, b2);
    }
}

/// The exact effect of one steady-state population pass on the store:
/// only the populations change, and each driven entity's fractions are
/// recomputed from its linewidth and total rate.
pub open spec fn spec_twolevel_run(pre: crate::ecs::World, post: crate::ecs::World) -> bool {
    &&& post.wf()
    &&& post == (crate::ecs::World { twolevels: post.twolevels, ..pre })
    &&& post.twolevels@.len() == pre.twolevels@.len()
    &&& forall|i: int|
        0 <= i < pre.n_entities && (#[trigger] pre.transitions@[i]) is Some
            && pre.rates@[i] is Some && pre.twolevels@[i] is Some ==> {
            let excited = spec_excited_fraction(
                pre.transitions@[i]->0.linewidth as int,
                sum_rates(pre.rates@[i]->0.contents@),
            );
            post.twolevels@[i] == Some(TwoLevelPopulation {
                ground: (UNIT - excited) as i64,
                excited: excited as i64,
            })
        }
    &&& forall|i: int|
        0 <= i < pre.n_entities && !((#[trigger] pre.transitions@[i]) is Some
            && pre.rates@[i] is Some && pre.twolevels@[i] is Some) ==> post.twolevels@[i]
            == pre.twolevels@[i]
}

/// Calculates the `TwoLevelPopulation` from the natural linewidth and
/// the `RateCoefficients`.
pub struct CalculateTwoLevelPopulationSystem;

impl CalculateTwoLevelPopulationSystem {
    /// Recomputes the steady-state populations of every entity carrying
    /// a transition, rate coefficients and a population slot.
    pub fn run(w: &mut crate::ecs::World)
        requires
            old(w).wf(),
        ensures
            spec_twolevel_run(*old(w), *final(w)),
    {
        let n = w.n_entities;
        let mut i: usize = 0;
        while i < n
            invariant
                0 <= i <= n,
                n == old(w).n_entities,
                w.wf(),
                *w == (crate::ecs::World { twolevels: w.twolevels, ..*old(w) }),
                w.twolevels@.len() == old(w).twolevels@.len(),
                forall|j: int| i <= j < n ==> (#[trigger] w.twolevels@[j]) == old(w).twolevels@[j],
                forall|j: int|
                    0 <= j < i && (#[trigger] old(w).transitions@[j]) is Some && old(
                        w,
                    ).rates@[j] is Some && old(w).twolevels@[j] is Some ==> {
                        let excited = spec_excited_fraction(
                            old(w).transitions@[j]->0.linewidth as int,
                            sum_rates(old(w).rates@[j]->0.contents@),
                        );
                        w.twolevels@[j] == Some(TwoLevelPopulation {
                            ground: (UNIT - excited) as i64,
                            excited: excited as i64,
                        })
                    },
                forall|j: int|
                    0 <= j < i && !((#[trigger] old(w).transitions@[j]) is Some && old(
                        w,
                    ).rates@[j] is Some && old(w).twolevels@[j] is Some) ==> w.twolevels@[j]
                        == old(w).twolevels@[j],
            decreases n - i,
        {
            if w.transitions[i].is_some() && w.rates[i].is_some() && w.twolevels[i].is_some() {
                let linewidth = w.transitions[i].unwrap().linewidth;
                let sum: i128;
                match &w.rates[i] {
                    Some(rates) => {
                        proof {
                            assert(rates.contents@.len() * (MAXQ as int) <= 4096 * (MAXQ as int))
                                by (nonlinear_arith)
                                requires rates.contents@.len() <= 4096;
                            assert((4096 as int) * (MAXQ as int) == 0x400_0000_0000)
                                by (nonlinear_arith);
                        }
                        sum = total_rate(rates);
                    },
                    None => {
                        sum = 0;
                    },
                }
                let mut pop = TwoLevelPopulation::new();
                pop.excited = excited_fraction(linewidth, sum);
                pop.calculate_ground_state();
                w.twolevels[i] = Some(pop);
            }
            i = i + 1;
        }
    }
}

} // verus!
