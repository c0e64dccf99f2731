//! The reveal timer in integer units: time in microseconds, rates in
//! milliglyphs per second, carryover in nanoglyphs. Half a glyph per
//! second is a rate of 500; one second is 1_000_000 microseconds.

use talkie::timer::{calc_glyphs_to_reveal, carryover_micros};
use talkie::NANOGLYPHS_PER_GLYPH;

/// If the delta is not big enough to reveal at least one glyph, then
/// the leftover stands for the entire delta.
#[test]
fn utils_test_delta_carries_over() {
    let (count, remainder) = calc_glyphs_to_reveal(0, 1_000_000, 500);
    assert_eq!(0, count);
    assert_eq!(1_000_000, carryover_micros(remainder, 500));
}

#[test]
fn utils_test_delta_zero_when_glyph_revealed() {
    let (count, remainder) = calc_glyphs_to_reveal(0, 2_000_000, 500);
    assert_eq!(1, count);
    assert_eq!(0, carryover_micros(remainder, 500));
}

#[test]
fn utils_test_delta_remainder_when_glyph_revealed() {
    let (count, remainder) = calc_glyphs_to_reveal(0, 2_200_000, 500);
    assert_eq!(1, count);
    assert_eq!(200_000, carryover_micros(remainder, 500));
}

#[test]
fn utils_test_multi_glyph_remainder() {
    let (count, remainder) = calc_glyphs_to_reveal(0, 5_200_000, 2_000);
    assert_eq!(10, count);
    assert_eq!(200_000, carryover_micros(remainder, 2_000));
}

/// If the delta is not big enough to reveal at least one glyph, then
/// the leftover stands for the entire delta.
#[test]
fn talkie_core_test_delta_carries_over() {
    let (count, remainder) = calc_glyphs_to_reveal(0, 1_000_000, 500);
    assert_eq!(0, count);
    assert_eq!(1_000_000, carryover_micros(remainder, 500));
}

#[test]
fn talkie_core_test_delta_zero_when_glyph_revealed() {
    let (count, remainder) = calc_glyphs_to_reveal(0, 2_000_000, 500);
    assert_eq!(1, count);
    assert_eq!(0, carryover_micros(remainder, 500));
}

#[test]
fn talkie_core_test_delta_remainder_when_glyph_revealed() {
    let (count, remainder) = calc_glyphs_to_reveal(0, 2_200_000, 500);
    assert_eq!(1, count);
    assert_eq!(200_000, carryover_micros(remainder, 500));
}

#[test]
fn talkie_core_test_multi_glyph_remainder() {
    let (count, remainder) = calc_glyphs_to_reveal(0, 5_200_000, 2_000);
    assert_eq!(10, count);
    assert_eq!(200_000, carryover_micros(remainder, 2_000));
}

/// If the delta is not big enough to reveal at least one glyph, then
/// the leftover stands for the entire delta.
#[test]
fn playback_test_delta_carries_over() {
    let (count, remainder) = calc_glyphs_to_reveal(0, 1_000_000, 500);
    assert_eq!(0, count);
    assert_eq!(1_000_000, carryover_micros(remainder, 500));
}

#[test]
fn playback_test_delta_zero_when_glyph_revealed() {
    let (count, remainder) = calc_glyphs_to_reveal(0, 2_000_000, 500);
    assert_eq!(1, count);
    assert_eq!(0, carryover_micros(remainder, 500));
}

#[test]
fn playback_test_delta_remainder_when_glyph_revealed() {
    let (count, remainder) = calc_glyphs_to_reveal(0, 2_200_000, 500);
    assert_eq!(1, count);
    assert_eq!(200_000, carryover_micros(remainder, 500));
}

#[test]
fn playback_test_multi_glyph_remainder() {
    let (count, remainder) = calc_glyphs_to_reveal(0, 5_200_000, 2_000);
    assert_eq!(10, count);
    assert_eq!(200_000, carryover_micros(remainder, 2_000));
}

/// Carryover additivity on concrete values: two ticks with the
/// leftover fed back equal one tick with the summed delta.
#[test]
fn carryover_is_additive() {
    let rate = 14_000;
    let (c1, l1) = calc_glyphs_to_reveal(0, 123_456, rate);
    let (c2, l2) = calc_glyphs_to_reveal(l1, 654_321, rate);
    let (c, l) = calc_glyphs_to_reveal(0, 123_456 + 654_321, rate);
    assert_eq!(c, c1 + c2);
    assert_eq!(l, l2);
}

/// The leftover is always below one glyph's worth of progress.
#[test]
fn leftover_is_below_one_glyph() {
    for delta in [0_u64, 1, 999, 71_428, 1_000_000, 123_456_789] {
        let (_, leftover) = calc_glyphs_to_reveal(0, delta, 14_000);
        assert!(leftover < NANOGLYPHS_PER_GLYPH);
    }
}

/// Fast-forward scaling: a scaled rate over a delta reveals exactly as
/// much as the base rate over the scaled delta.
#[test]
fn fast_forward_scales_linearly() {
    let base = 14_000;
    let factor = 10;
    let delta = 987_654;
    let fast = calc_glyphs_to_reveal(0, delta, base * factor);
    let slow = calc_glyphs_to_reveal(0, delta * factor, base);
    assert_eq!(fast, slow);
}
