//! The glyph reveal timer.
//!
//! Playback reveals a passage one glyph at a time. Elapsed wall time is
//! converted into whole glyphs plus a fractional leftover that carries
//! over to the next tick, so that no time is ever lost to rounding.
//!
//! All accounting is exact integer arithmetic:
//! - elapsed time is measured in microseconds,
//! - the reveal rate is measured in milliglyphs per second,
//! - progress, and the carryover, is their product in nanoglyphs
//!   (one microsecond at one milliglyph per second earns one nanoglyph;
//!   [`NANOGLYPHS_PER_GLYPH`](crate::NANOGLYPHS_PER_GLYPH) of them make
//!   one whole glyph).
//!
//! Keeping the carryover in nanoglyphs rather than in time units is what
//! makes the central carryover-additivity property exact: ticking twice
//! reveals precisely as much as one tick with the summed time.

use vstd::arithmetic::div_mod::{
    lemma_basic_div, lemma_fundamental_div_mod, lemma_fundamental_div_mod_converse_div,
    lemma_fundamental_div_mod_converse_mod, lemma_small_mod,
};
use vstd::arithmetic::mul::lemma_mul_is_distributive_add_other_way;
use vstd::prelude::*;

use crate::NANOGLYPHS_PER_GLYPH;

verus! {

/// Total reveal progress, in nanoglyphs, earned by a tick: the carryover
/// from the previous tick plus the time elapsed at the given rate.
pub open spec fn reveal_units(carry_ng: int, delta_micros: int, rate_mgps: int) -> int {
    carry_ng + delta_micros * rate_mgps
}

/// How many whole glyphs a tick reveals.
pub open spec fn spec_reveal_count(carry_ng: int, delta_micros: int, rate_mgps: int) -> int {
    reveal_units(carry_ng, delta_micros, rate_mgps) / (NANOGLYPHS_PER_GLYPH as int)
}

/// The sub-glyph leftover of a tick, in nanoglyphs, to be carried into
/// the next tick.
pub open spec fn spec_reveal_carry(carry_ng: int, delta_micros: int, rate_mgps: int) -> int {
    reveal_units(carry_ng, delta_micros, rate_mgps) % (NANOGLYPHS_PER_GLYPH as int)
}

/// Given the carryover of the previous tick, the elapsed time, and the
/// reveal rate, determine how many whole glyphs to reveal now and the
/// leftover that the elapsed time did not use.
///
/// The leftover is returned in nanoglyphs; [`carryover_micros`] converts
/// it back to time for display. A rate of zero is a caller contract
/// violation, as is progress beyond what a `u64` can hold.
pub fn calc_glyphs_to_reveal(carry_ng: u64, delta_micros: u64, rate_mgps: u64) -> (r: (u64, u64))
    requires
        rate_mgps > 0,
        carry_ng < NANOGLYPHS_PER_GLYPH,
        carry_ng + delta_micros * rate_mgps <= u64::MAX,
    ensures
        r.0 == spec_reveal_count(carry_ng as int, delta_micros as int, rate_mgps as int),
        r.1 == spec_reveal_carry(carry_ng as int, delta_micros as int, rate_mgps as int),
        r.1 < NANOGLYPHS_PER_GLYPH,
{
    let total: u64 = carry_ng + delta_micros * rate_mgps;
    (total / NANOGLYPHS_PER_GLYPH, total % NANOGLYPHS_PER_GLYPH)
}

/// The time, in whole microseconds, that a carryover stands for at the
/// given rate: progress not yet worth a glyph, read back as unused time.
pub open spec fn spec_carryover_micros(carry_ng: int, rate_mgps: int) -> int {
    carry_ng / rate_mgps
}

/// Convert a leftover from nanoglyphs back into microseconds of unused
/// time at the given rate.
pub fn carryover_micros(carry_ng: u64, rate_mgps: u64) -> (r: u64)
    requires
        rate_mgps > 0,
    ensures
        r == spec_carryover_micros(carry_ng as int, rate_mgps as int),
{
    carry_ng / rate_mgps
}

/// Reveal bounds: a tick's leftover is never negative and never worth a
/// whole glyph; read back as time, it is strictly less than the time one
/// glyph takes (`1 / rate` seconds, i.e. its microsecond count times the
/// rate stays under one glyph's worth of nanoglyphs).
pub proof fn lemma_reveal_bounds(carry_ng: int, delta_micros: int, rate_mgps: int)
    requires
        rate_mgps > 0,
        carry_ng >= 0,
        delta_micros >= 0,
    ensures
        0 <= spec_reveal_carry(carry_ng, delta_micros, rate_mgps) < NANOGLYPHS_PER_GLYPH,
        spec_carryover_micros(spec_reveal_carry(carry_ng, delta_micros, rate_mgps), rate_mgps)
            * rate_mgps < NANOGLYPHS_PER_GLYPH,
{
    let ng = NANOGLYPHS_PER_GLYPH as int;
    let units = reveal_units(carry_ng, delta_micros, rate_mgps);
    assert(delta_micros * rate_mgps >= 0) by (nonlinear_arith)
        requires
            delta_micros >= 0,
            rate_mgps > 0,
    ;
    lemma_fundamental_div_mod(units, ng);
    let rem = units % ng;
    lemma_fundamental_div_mod(rem, rate_mgps);
    assert((rem / rate_mgps) * rate_mgps <= rem) by (nonlinear_arith)
        requires
            rate_mgps > 0,
            rem == rate_mgps * (rem / rate_mgps) + rem % rate_mgps,
            rem % rate_mgps >= 0,
    ;
}

/// Reveal carryover additivity: feeding the leftover of one tick into a
/// second tick reveals, in total, exactly as many glyphs as a single tick
/// with the summed elapsed time, and leaves the same leftover.
pub proof fn lemma_reveal_carryover_additive(
    carry_ng: int,
    d1_micros: int,
    d2_micros: int,
    rate_mgps: int,
)
    requires
        rate_mgps > 0,
        carry_ng >= 0,
        d1_micros >= 0,
        d2_micros >= 0,
    ensures
        spec_reveal_count(carry_ng, d1_micros, rate_mgps) + spec_reveal_count(
            spec_reveal_carry(carry_ng, d1_micros, rate_mgps),
            d2_micros,
            rate_mgps,
        ) == spec_reveal_count(carry_ng, d1_micros + d2_micros, rate_mgps),
        spec_reveal_carry(
            spec_reveal_carry(carry_ng, d1_micros, rate_mgps),
            d2_micros,
            rate_mgps,
        ) == spec_reveal_carry(carry_ng, d1_micros + d2_micros, rate_mgps),
{
    let ng = NANOGLYPHS_PER_GLYPH as int;
    let t1 = reveal_units(carry_ng, d1_micros, rate_mgps);
    let q1 = t1 / ng;
    let r1 = t1 % ng;
    let t2 = reveal_units(r1, d2_micros, rate_mgps);
    let q2 = t2 / ng;
    let r2 = t2 % ng;
    let total = reveal_units(carry_ng, d1_micros + d2_micros, rate_mgps);
    assert(d1_micros * rate_mgps >= 0) by (nonlinear_arith)
        requires
            d1_micros >= 0,
            rate_mgps > 0,
    ;
    assert(d2_micros * rate_mgps >= 0) by (nonlinear_arith)
        requires
            d2_micros >= 0,
            rate_mgps > 0,
    ;
    lemma_fundamental_div_mod(t1, ng);
    lemma_fundamental_div_mod(t2, ng);
    lemma_mul_is_distributive_add_other_way(rate_mgps, d1_micros, d2_micros);
    assert(total == ng * (q1 + q2) + r2);
    lemma_fundamental_div_mod_converse_div(total, ng, q1 + q2, r2);
    lemma_fundamental_div_mod_converse_mod(total, ng, q1 + q2, r2);
}

/// The sum of a sequence of elapsed times.
pub open spec fn spec_delta_sum(deltas: Seq<int>) -> int
    decreases deltas.len(),
{
    if deltas.len() == 0 {
        0
    } else {
        deltas[0] + spec_delta_sum(deltas.drop_first())
    }
}

/// The carryover left after ticking once per delta, each tick feeding
/// its leftover into the next.
pub open spec fn spec_fold_carry(carry_ng: int, deltas: Seq<int>, rate_mgps: int) -> int
    decreases deltas.len(),
{
    if deltas.len() == 0 {
        carry_ng
    } else {
        spec_fold_carry(
            spec_reveal_carry(carry_ng, deltas[0], rate_mgps),
            deltas.drop_first(),
            rate_mgps,
        )
    }
}

/// The total glyph count revealed by ticking once per delta, each tick
/// feeding its leftover into the next.
pub open spec fn spec_fold_count(carry_ng: int, deltas: Seq<int>, rate_mgps: int) -> int
    decreases deltas.len(),
{
    if deltas.len() == 0 {
        0
    } else {
        spec_reveal_count(carry_ng, deltas[0], rate_mgps) + spec_fold_count(
            spec_reveal_carry(carry_ng, deltas[0], rate_mgps),
            deltas.drop_first(),
            rate_mgps,
        )
    }
}

/// A sequence of nonnegative elapsed times sums to something
/// nonnegative.
proof fn lemma_delta_sum_nonneg(deltas: Seq<int>)
    requires
        forall|i: int| 0 <= i < deltas.len() ==> deltas[i] >= 0,
    ensures
        spec_delta_sum(deltas) >= 0,
    decreases deltas.len(),
{
    if deltas.len() > 0 {
        lemma_delta_sum_nonneg(deltas.drop_first());
    }
}

/// Reveal carryover additivity over a whole sequence: ticking once per
/// delta, feeding each leftover into the next tick, reveals in total
/// exactly as many glyphs as a single tick with the summed elapsed
/// time, and leaves the same leftover.
pub proof fn lemma_reveal_fold(carry_ng: int, deltas: Seq<int>, rate_mgps: int)
    requires
        rate_mgps > 0,
        0 <= carry_ng < NANOGLYPHS_PER_GLYPH,
        forall|i: int| 0 <= i < deltas.len() ==> deltas[i] >= 0,
    ensures
        spec_fold_count(carry_ng, deltas, rate_mgps) == spec_reveal_count(
            carry_ng,
            spec_delta_sum(deltas),
            rate_mgps,
        ),
        spec_fold_carry(carry_ng, deltas, rate_mgps) == spec_reveal_carry(
            carry_ng,
            spec_delta_sum(deltas),
            rate_mgps,
        ),
    decreases deltas.len(),
{
    let ng = NANOGLYPHS_PER_GLYPH as int;
    if deltas.len() == 0 {
        lemma_basic_div(carry_ng, ng);
        lemma_small_mod(carry_ng as nat, ng as nat);
    } else {
        let d0 = deltas[0];
        let rest = deltas.drop_first();
        let c1 = spec_reveal_carry(carry_ng, d0, rate_mgps);
        lemma_reveal_bounds(carry_ng, d0, rate_mgps);
        lemma_reveal_fold(c1, rest, rate_mgps);
        lemma_delta_sum_nonneg(rest);
        lemma_reveal_carryover_additive(carry_ng, d0, spec_delta_sum(rest), rate_mgps);
    }
}

/// Fast-forward scaling: revealing at a rate scaled by a factor over some
/// elapsed time earns exactly the progress of the base rate over that
/// time scaled by the same factor, so it reveals the same glyph count and
/// leaves the same leftover.
pub proof fn lemma_fast_forward_scaling(
    carry_ng: int,
    delta_micros: int,
    rate_mgps: int,
    factor: int,
)
    requires
        rate_mgps > 0,
        factor > 0,
    ensures
        spec_reveal_count(carry_ng, delta_micros, rate_mgps * factor) == spec_reveal_count(
            carry_ng,
            delta_micros * factor,
            rate_mgps,
        ),
        spec_reveal_carry(carry_ng, delta_micros, rate_mgps * factor) == spec_reveal_carry(
            carry_ng,
            delta_micros * factor,
            rate_mgps,
        ),
{
    assert(delta_micros * (rate_mgps * factor) == (delta_micros * factor) * rate_mgps)
        by (nonlinear_arith);
}

} // verus!
