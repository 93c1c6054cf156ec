//! The peak meter: a state machine over a running peak, a held marker
//! position and two timestamps, driven once per incoming block summary.
//!
//! A block summary is the block's loudest amplitude as a loudness in
//! centi-dB, or nothing for a silent (or NaN) block. On a render tick —
//! no more often than every 100 ms — the meter maps the running peak
//! onto the scale, applies hold-and-decay ballistics to the marker, and
//! rasterizes reference ticks, a solid bar and the marker into one line
//! of glyphs. The running peak resets after every render.

use vstd::prelude::*;
use crate::canvas::{bit_weight, Line};
use crate::scale::{iec_scale, scale_spec, lemma_scale_monotone, lemma_scale_bounds};
use vstd::arithmetic::mul::lemma_mul_inequality;
use vstd::arithmetic::div_mod::lemma_div_is_ordered;

verus! {

/// A render pass happens at most once per this many milliseconds.
pub const RENDER_INTERVAL_MS: u64 = 100;

/// The held marker falls back only after this many milliseconds.
pub const HOLD_MS: u64 = 1600;

/// The loudness of the `i`-th fixed reference tick, in centi-dB: the
/// standard marks at 0, -5, -10, -15, -20, -25, -30, -35, -40, -50 and
/// -60 dB.
pub open spec fn mark(i: int) -> int {
    if i == 0 {
        0
    } else if i == 1 {
        -500
    } else if i == 2 {
        -1000
    } else if i == 3 {
        -1500
    } else if i == 4 {
        -2000
    } else if i == 5 {
        -2500
    } else if i == 6 {
        -3000
    } else if i == 7 {
        -3500
    } else if i == 8 {
        -4000
    } else if i == 9 {
        -5000
    } else {
        -6000
    }
}

/// The reference-tick bits that cell `c` carries after the first `i`
/// ticks have been drawn on a width-`w` line: each tick lights the top
/// row one sub-column left of its scale position.
pub open spec fn tick_fold(c: int, w: int, i: int) -> u8
    decreases i,
{
    if i <= 0 {
        0u8
    } else {
        let p = scale_spec(mark(i - 1), w) - 1;
        if p / 2 == c {
            tick_fold(c, w, i - 1) | bit_weight(p % 2, 0)
        } else {
            tick_fold(c, w, i - 1)
        }
    }
}

/// The reference-tick bits of cell `c` on a width-`w` line.
pub open spec fn tick_mask(c: int, w: int) -> u8 {
    tick_fold(c, w, 11)
}

/// The solid-bar bits of cell `c` when the bar reaches sub-column `pos`:
/// the two bar rows, on each sub-column left of `pos`.
pub open spec fn bar_mask(c: int, pos: int) -> u8 {
    if 2 * c + 1 < pos {
        0xE4u8
    } else if 2 * c < pos {
        0x44u8
    } else {
        0u8
    }
}

/// The held-marker bits of cell `c` when the marker stands at `dpeak`:
/// all four rows of the sub-column one left of `dpeak`, or nothing when
/// no peak is held.
pub open spec fn marker_mask(c: int, dpeak: int) -> u8 {
    if dpeak > 0 && (dpeak - 1) / 2 == c {
        if (dpeak - 1) % 2 == 0 {
            0x47u8
        } else {
            0xB8u8
        }
    } else {
        0u8
    }
}

/// The complete dot mask of cell `c` on a rendered meter line of width
/// `w` sub-columns, with the bar at `pos` and the marker at `dpeak`.
pub open spec fn meter_mask(c: int, w: int, pos: int, dpeak: int) -> u8 {
    (tick_mask(c, w) | bar_mask(c, pos)) | marker_mask(c, dpeak)
}

/// The running peak after merging an incoming block summary: an incoming
/// level replaces the stored one only when strictly louder; a silent
/// block changes nothing.
pub open spec fn merged_peak(stored: Option<i32>, incoming: Option<i32>) -> Option<i32> {
    match incoming {
        None => stored,
        Some(v) => match stored {
            None => Some(v),
            Some(u) => if v > u {
                Some(v)
            } else {
                Some(u)
            },
        },
    }
}

/// The scale position of a running peak on `w` sub-columns: silence maps
/// to 0, as a loudness below the curve's floor would.
pub open spec fn pos_of(peak: Option<i32>, w: int) -> int {
    match peak {
        None => 0,
        Some(v) => scale_spec(v as int, w),
    }
}

/// The next held-marker position: it jumps up at once when the bar
/// passes it, and falls back to the bar only after the hold timeout.
pub open spec fn next_dpeak(dpeak: int, pos: int, now_ms: int, dtime: int) -> int {
    if pos > dpeak {
        pos
    } else if now_ms - dtime > HOLD_MS {
        pos
    } else {
        dpeak
    }
}

/// The marker's ballistics: a bar above the marker raises it at once; a
/// lower bar leaves it standing until the hold timeout has aged, and
/// only then does the marker fall back to the bar.
pub proof fn lemma_hold_and_decay(dpeak: int, pos: int, now_ms: int, dtime: int)
    ensures
        pos > dpeak ==> next_dpeak(dpeak, pos, now_ms, dtime) == pos,
        pos <= dpeak && now_ms - dtime <= HOLD_MS ==> next_dpeak(dpeak, pos, now_ms, dtime)
            == dpeak,
        pos <= dpeak && now_ms - dtime > HOLD_MS ==> next_dpeak(dpeak, pos, now_ms, dtime) == pos,
{
}

/// The numeric readout: the running peak's decibels rounded to the
/// nearest whole dB, half away from zero; silence has no finite readout.
pub open spec fn round_db(peak: Option<i32>) -> Option<i64> {
    match peak {
        None => None,
        Some(v) => Some(
            if v >= 0 {
                ((v + 50) / 100) as i64
            } else {
                (-((-(v as int) + 50) / 100)) as i64
            },
        ),
    }
}

/// Whether a block arriving at `now_ms` lets a render pass through the
/// throttle.
pub open spec fn renders(d: PeakDisplay, now_ms: u64) -> bool {
    now_ms - d.last_print >= RENDER_INTERVAL_MS
}

/// The meter's state after one block summary: the whole transition of
/// `update`, as one spec-level step.
pub open spec fn step(d: PeakDisplay, level: Option<i32>, now_ms: u64) -> PeakDisplay {
    let merged = merged_peak(d.peak, level);
    if renders(d, now_ms) {
        let w = 2 * d.cells as int;
        let pos = pos_of(merged, w);
        PeakDisplay {
            cells: d.cells,
            peak: None,
            dpeak: next_dpeak(d.dpeak as int, pos, now_ms as int, d.dtime as int) as usize,
            dtime: if pos > d.dpeak {
                now_ms
            } else {
                d.dtime
            },
            last_print: now_ms,
        }
    } else {
        PeakDisplay { peak: merged, ..d }
    }
}

/// What a rendered frame shows for a meter in state `d` that took
/// `level` at `now_ms`: one glyph per cell carrying the reference ticks,
/// the bar at the merged peak's scale position and the held marker after
/// its ballistics, and the merged peak's rounded readout.
pub open spec fn frame_matches(d: PeakDisplay, level: Option<i32>, now_ms: u64, f: RenderFrame) -> bool {
    let merged = merged_peak(d.peak, level);
    let w = 2 * d.cells as int;
    let pos = pos_of(merged, w);
    let dp = next_dpeak(d.dpeak as int, pos, now_ms as int, d.dtime as int);
    &&& f.glyphs@.len() == d.cells
    &&& (forall|c: int|
        0 <= c < d.cells ==> f.glyphs@[c] as u32 == 0x2800 + meter_mask(c, w, pos, dp))
    &&& f.db == round_db(merged)
}

/// One rendered meter line: the glyph row and the numeric readout.
pub struct RenderFrame {
    /// One Braille glyph per display cell.
    pub glyphs: Vec<char>,
    /// The rounded dB readout; None when the meter saw only silence.
    pub db: Option<i64>,
}

/// The peak meter's state between render ticks.
pub struct PeakDisplay {
    /// The display width in glyph cells.
    pub cells: usize,
    /// The loudest level seen since the last render, in centi-dB.
    pub peak: Option<i32>,
    /// The held marker position, in sub-columns from the left.
    pub dpeak: usize,
    /// When the held marker was last raised, in milliseconds.
    pub dtime: u64,
    /// When the last render pass completed, in milliseconds.
    pub last_print: u64,
}

impl PeakDisplay {
    /// The display is wide enough for every reference tick (each tick
    /// must land at scale position 1 or later) and narrow enough for the
    /// sub-column count to fit; the marker never leaves the raster.
    pub open spec fn wf(&self) -> bool {
        &&& 20 <= self.cells
        &&& self.cells <= usize::MAX as int / 4
        &&& self.dpeak <= 2 * self.cells
    }

    /// A fresh meter of `cells` display cells at time `now_ms`: no peak
    /// seen, no marker held, the render throttle primed at `now_ms`.
    pub fn new(cells: usize, now_ms: u64) -> (display: PeakDisplay)
        requires
            20 <= cells <= usize::MAX / 4,
        ensures
            display.wf(),
            display.cells == cells,
            display.peak is None,
            display.dpeak == 0,
            display.dtime == now_ms,
            display.last_print == now_ms,
    {
        PeakDisplay { cells, peak: None, dpeak: 0, dtime: now_ms, last_print: now_ms }
    }

    /// Feeds one block summary into the meter at time `now_ms` and
    /// renders when the render interval has elapsed.
    ///
    /// The incoming level merges into the running peak. On a render
    /// tick, the bar position is the running peak's scale position, the
    /// held marker obeys hold-and-decay, the line carries reference
    /// ticks, bar and marker, and the running peak resets; between
    /// ticks nothing but the running peak changes and nothing is drawn.
    pub fn update(&mut self, level: Option<i32>, now_ms: u64) -> (frame: Option<RenderFrame>)
        requires
            old(self).wf(),
            now_ms >= old(self).last_print,
            now_ms >= old(self).dtime,
        ensures
            final(self).wf(),
            final(self).cells == old(self).cells,
            final(self).last_print <= now_ms,
            final(self).dtime <= now_ms,
            *final(self) == step(*old(self), level, now_ms),
            frame is Some <==> renders(*old(self), now_ms),
            frame matches Some(f) ==> frame_matches(*old(self), level, now_ms, f),
    {
        let merged: Option<i32> = match level {
            None => self.peak,
            Some(v) => match self.peak {
                None => Some(v),
                Some(u) => if v > u {
                    Some(v)
                } else {
                    Some(u)
                },
            },
        };
        self.peak = merged;
        if now_ms - self.last_print >= RENDER_INTERVAL_MS {
            let w = self.cells * 2;
            let pos = match merged {
                None => 0,
                Some(v) => iec_scale(v, w),
            };
            if pos > self.dpeak {
                self.dpeak = pos;
                self.dtime = now_ms;
            } else if now_ms - self.dtime > HOLD_MS {
                self.dpeak = pos;
            }
            let mut line = Line::new(self.cells);
            draw_ticks(&mut line);
            draw_bar(&mut line, pos);
            draw_marker(&mut line, self.dpeak);
            let glyphs = line.render();
            let db = match merged {
                None => None,
                Some(v) => Some(
                    if v >= 0 {
                        (v as i64 + 50) / 100
                    } else {
                        -(((-(v as i64)) + 50) / 100)
                    },
                ),
            };
            self.peak = None;
            self.last_print = now_ms;
            Some(RenderFrame { glyphs, db })
        } else {
            None
        }
    }
}

/// The centi-dB value of the `i`-th reference tick.
fn mark_at(i: usize) -> (m: i32)
    requires
        i < 11,
    ensures
        m as int == mark(i as int),
{
    if i == 0 {
        0
    } else if i == 1 {
        -500
    } else if i == 2 {
        -1000
    } else if i == 3 {
        -1500
    } else if i == 4 {
        -2000
    } else if i == 5 {
        -2500
    } else if i == 6 {
        -3000
    } else if i == 7 {
        -3500
    } else if i == 8 {
        -4000
    } else if i == 9 {
        -5000
    } else {
        -6000
    }
}

/// Every reference tick lands at scale position 1 or later on a line of
/// at least 40 sub-columns, so drawing it one sub-column left of its
/// position stays on the raster.
proof fn lemma_mark_pos(i: int, w: int)
    requires
        0 <= i < 11,
        40 <= w,
    ensures
        1 <= scale_spec(mark(i), w) <= w,
{
    lemma_scale_bounds(mark(i), w);
    lemma_scale_monotone(-6000, mark(i), w);
    assert(scale_spec(-6000, w) == 1000 * w / 40000);
    lemma_mul_inequality(40, w, 1000);
    lemma_div_is_ordered(40000, 1000 * w, 40000);
}

/// Draws the fixed reference ticks on a fresh line: each tick lights the
/// top row one sub-column left of its scale position.
pub fn draw_ticks(line: &mut Line)
    requires
        old(line).wf(),
        old(line).width >= 40,
        forall|c: int| 0 <= c < old(line)@.len() ==> old(line)@[c] == 0u8,
    ensures
        final(line).wf(),
        final(line).width == old(line).width,
        final(line)@.len() == old(line)@.len(),
        forall|c: int|
            0 <= c < final(line)@.len() ==> final(line)@[c] == tick_mask(c, old(line).width as int),
{
    let w = line.width;
    let ghost n = line@.len();
    let mut i: usize = 0;
    while i < 11
        invariant
            line.wf(),
            line.width == w,
            w >= 40,
            line@.len() == n,
            i <= 11,
            forall|c: int| 0 <= c < n ==> line@[c] == tick_fold(c, w as int, i as int),
        decreases 11 - i,
    {
        let m = mark_at(i);
        let pos = iec_scale(m, w);
        proof {
            lemma_mark_pos(i as int, w as int);
        }
        line.set(pos - 1, 0);
        proof {
            let p = scale_spec(mark(i as int), w as int) - 1;
            assert(pos as int - 1 == p);
            assert forall|c: int| 0 <= c < n implies line@[c] == tick_fold(
                c,
                w as int,
                i as int + 1,
            ) by {
                assert(tick_fold(c, w as int, i as int + 1) == if p / 2 == c {
                    tick_fold(c, w as int, i as int) | bit_weight(p % 2, 0)
                } else {
                    tick_fold(c, w as int, i as int)
                });
            }
        }
        i += 1;
    }
}

/// Draws the solid bar: both bar rows of every sub-column left of `pos`.
pub fn draw_bar(line: &mut Line, pos: usize)
    requires
        old(line).wf(),
        pos <= old(line).width,
    ensures
        final(line).wf(),
        final(line).width == old(line).width,
        final(line)@.len() == old(line)@.len(),
        forall|c: int|
            0 <= c < final(line)@.len() ==> final(line)@[c] == old(line)@[c] | bar_mask(c, pos as int),
{
    let ghost n = line@.len();
    proof {
        assert forall|c: int| 0 <= c < n implies line@[c] == old(line)@[c] | bar_mask(c, 0) by {
            lemma_or_zero(old(line)@[c]);
        }
    }
    let mut x: usize = 0;
    while x < pos
        invariant
            line.wf(),
            line.width == old(line).width,
            line@.len() == n,
            x <= pos,
            pos <= line.width,
            forall|c: int| 0 <= c < n ==> line@[c] == old(line)@[c] | bar_mask(c, x as int),
        decreases pos - x,
    {
        proof {
            lemma_or_zero(old(line)@[x as int / 2]);
        }
        line.set(x, 2);
        line.set(x, 3);
        proof {
            let c0 = x as int / 2;
            let m = old(line)@[c0];
            if x % 2 == 0 {
                assert((m | 4u8) | 0x40u8 == m | 0x44u8) by (bit_vector);
            } else {
                assert(((m | 0x44u8) | 0x20u8) | 0x80u8 == m | 0xE4u8) by (bit_vector);
            }
            assert forall|c: int| 0 <= c < n implies line@[c] == old(line)@[c] | bar_mask(
                c,
                x as int + 1,
            ) by {
                if c != c0 {
                    assert(bar_mask(c, x as int + 1) == bar_mask(c, x as int));
                }
            }
        }
        x += 1;
    }
}

/// Draws the held marker: all four rows of the sub-column one left of
/// `dpeak`, or nothing when no peak is held.
pub fn draw_marker(line: &mut Line, dpeak: usize)
    requires
        old(line).wf(),
        dpeak <= old(line).width,
    ensures
        final(line).wf(),
        final(line).width == old(line).width,
        final(line)@.len() == old(line)@.len(),
        forall|c: int|
            0 <= c < final(line)@.len() ==> final(line)@[c] == old(line)@[c] | marker_mask(
                c,
                dpeak as int,
            ),
{
    if dpeak > 0 {
        let x = dpeak - 1;
        line.set(x, 0);
        line.set(x, 1);
        line.set(x, 2);
        line.set(x, 3);
        proof {
            let c0 = x as int / 2;
            let m = old(line)@[c0];
            if x % 2 == 0 {
                assert((((m | 1u8) | 2u8) | 4u8) | 0x40u8 == m | 0x47u8) by (bit_vector);
            } else {
                assert((((m | 8u8) | 0x10u8) | 0x20u8) | 0x80u8 == m | 0xB8u8) by (bit_vector);
            }
            assert forall|c: int| 0 <= c < line@.len() implies line@[c] == old(line)@[c]
                | marker_mask(c, dpeak as int) by {
                if c != c0 {
                    lemma_or_zero(old(line)@[c]);
                }
            }
        }
    } else {
        proof {
            assert forall|c: int| 0 <= c < line@.len() implies line@[c] == old(line)@[c]
                | marker_mask(c, dpeak as int) by {
                lemma_or_zero(old(line)@[c]);
            }
        }
    }
}

/// ORing in no dots leaves a mask as it is.
proof fn lemma_or_zero(m: u8)
    ensures
        m | 0u8 == m,
{
    assert(m | 0u8 == m) by (bit_vector);
}

} // verus!
