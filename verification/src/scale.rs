//! The scale mapper: loudness in centi-dB to a column position on a
//! fixed-width display scale, through a piecewise-linear perceptual curve.
//!
//! Loudness is carried as an integer number of hundredths of a decibel so
//! that the curve is exact integer arithmetic. The curve's deflection is
//! kept in units of 1/400 of a percent: every breakpoint and slope of the
//! perceptual curve (segments at -70, -60, -50, -40, -30, -20 and 0 dB)
//! is then a whole number, and full deflection is 40000 units.

use vstd::prelude::*;
use vstd::arithmetic::mul::{lemma_mul_inequality, lemma_mul_nonnegative};
use vstd::arithmetic::div_mod::{lemma_div_is_ordered, lemma_div_multiples_vanish};

verus! {

/// The piecewise-linear perceptual curve: loudness in centi-dB to a
/// deflection in [0, 40000] (units of 1/400 percent). Below -70 dB the
/// curve clamps to silence, at and above 0 dB to full deflection; in
/// between, each 10 dB segment has its own slope, compressed at the low
/// end and expanded near 0 dB.
pub open spec fn deflection_units(cdb: int) -> int {
    if cdb < -7000 {
        0
    } else if cdb < -6000 {
        cdb + 7000
    } else if cdb < -5000 {
        2 * (cdb + 6000) + 1000
    } else if cdb < -4000 {
        3 * (cdb + 5000) + 3000
    } else if cdb < -3000 {
        6 * (cdb + 4000) + 6000
    } else if cdb < -2000 {
        8 * (cdb + 3000) + 12000
    } else if cdb < 0 {
        10 * (cdb + 2000) + 20000
    } else {
        40000
    }
}

/// The column position for a loudness value on a scale of `width`
/// sub-columns: the deflection scaled to `width`, truncated.
pub open spec fn scale_spec(cdb: int, width: int) -> int {
    deflection_units(cdb) * width / 40000
}

pub proof fn lemma_deflection_bounds(cdb: int)
    ensures
        0 <= deflection_units(cdb) <= 40000,
{
}

pub proof fn lemma_deflection_monotone(a: int, b: int)
    requires
        a <= b,
    ensures
        deflection_units(a) <= deflection_units(b),
{
}

/// The scale mapping never leaves the display: a position is always in
/// `[0, width]`.
pub proof fn lemma_scale_bounds(cdb: int, width: int)
    requires
        0 <= width,
    ensures
        0 <= scale_spec(cdb, width) <= width,
{
    lemma_deflection_bounds(cdb);
    lemma_mul_nonnegative(deflection_units(cdb), width);
    lemma_mul_inequality(deflection_units(cdb), 40000, width);
    lemma_div_is_ordered(0, deflection_units(cdb) * width, 40000);
    lemma_div_is_ordered(deflection_units(cdb) * width, 40000 * width, 40000);
    lemma_div_multiples_vanish(width, 40000);
}

/// The scale mapping is monotone: a louder value never lands on an
/// earlier column.
pub proof fn lemma_scale_monotone(a: int, b: int, width: int)
    requires
        a <= b,
        0 <= width,
    ensures
        scale_spec(a, width) <= scale_spec(b, width),
{
    lemma_deflection_monotone(a, b);
    lemma_mul_inequality(deflection_units(a), deflection_units(b), width);
    lemma_div_is_ordered(deflection_units(a) * width, deflection_units(b) * width, 40000);
}

/// Silence (at or below -70 dB) maps to column 0.
pub proof fn lemma_scale_silent(cdb: int, width: int)
    requires
        cdb <= -7000,
        0 <= width,
    ensures
        scale_spec(cdb, width) == 0,
{
    lemma_scale_monotone(cdb, -7000, width);
    lemma_scale_bounds(cdb, width);
}

/// Full level (0 dB and above) maps to the full width.
pub proof fn lemma_scale_full(cdb: int, width: int)
    requires
        cdb >= 0,
        0 <= width,
    ensures
        scale_spec(cdb, width) == width,
{
    lemma_div_multiples_vanish(width, 40000);
}

/// Maps a loudness value in centi-dB onto a scale of `width` sub-columns.
pub fn iec_scale(centi_db: i32, width: usize) -> (pos: usize)
    ensures
        pos == scale_spec(centi_db as int, width as int),
        pos <= width,
        centi_db <= -7000 ==> pos == 0,
        centi_db >= 0 ==> pos == width,
{
    let cdb: i64 = centi_db as i64;
    let deflection: i64 = if cdb < -7000 {
        0
    } else if cdb < -6000 {
        cdb + 7000
    } else if cdb < -5000 {
        2 * (cdb + 6000) + 1000
    } else if cdb < -4000 {
        3 * (cdb + 5000) + 3000
    } else if cdb < -3000 {
        6 * (cdb + 4000) + 6000
    } else if cdb < -2000 {
        8 * (cdb + 3000) + 12000
    } else if cdb < 0 {
        10 * (cdb + 2000) + 20000
    } else {
        40000
    };
    proof {
        assert(deflection as int == deflection_units(centi_db as int));
        lemma_deflection_bounds(centi_db as int);
        lemma_mul_nonnegative(deflection as int, width as int);
        lemma_mul_inequality(deflection as int, 40000, width as int);
        lemma_scale_bounds(centi_db as int, width as int);
        if centi_db <= -7000 {
            lemma_scale_silent(centi_db as int, width as int);
        }
        if centi_db >= 0 {
            lemma_scale_full(centi_db as int, width as int);
        }
    }
    let scaled: u128 = (deflection as u128) * (width as u128);
    (scaled / 40000) as usize
}

} // verus!
