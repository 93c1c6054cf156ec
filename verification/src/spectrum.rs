//! The spectrum view: a rolling sample window that always holds the most
//! recent samples up to the transform size, and the rasterization of
//! magnitude bins into columns of discrete height.
//!
//! Samples pass through the window untouched, carried as the 32-bit
//! patterns of the capture format; only their order and count matter
//! here. The transform itself is an external collaborator: its output
//! comes back as one loudness per bin, in centi-dB, which is quantized
//! into one of five column heights and drawn from the bottom row up.

use vstd::prelude::*;
use crate::canvas::{bit_weight, Line};
use crate::meter::RENDER_INTERVAL_MS;

verus! {

/// The most recent `size` samples of a stream `s`, or all of them when
/// fewer have arrived.
pub open spec fn recent(s: Seq<u32>, size: int) -> Seq<u32> {
    s.skip(vstd::math::max(0, s.len() - size))
}

/// Feeding blocks one by one keeps the rolling-window law: a window that
/// holds the most recent `size` samples of everything seen so far, fed
/// one more block, holds the most recent `size` samples of everything
/// seen including that block. By induction over the blocks, a window
/// that started empty always holds exactly the most recent `size`
/// samples of all blocks concatenated in arrival order, the oldest
/// excess discarded, for any total length.
pub proof fn lemma_window_cumulative(all: Seq<u32>, block: Seq<u32>, size: int)
    requires
        size >= 0,
    ensures
        recent(recent(all, size) + block, size) == recent(all + block, size),
{
    let la = all.len() as int;
    let lb = block.len() as int;
    if la <= size {
        assert(recent(all, size) =~= all);
        if la + lb <= size {
            assert(recent(all + block, size) =~= all + block);
        }
    } else {
        let w = all.skip(la - size);
        assert(recent(all, size) =~= w);
        assert(w + block =~= (all + block).skip(la - size));
        assert(recent(w + block, size) =~= (w + block).skip(lb));
        assert((all + block).skip(la - size).skip(lb) =~= (all + block).skip(la - size + lb));
        assert(recent(all + block, size) =~= (all + block).skip(la + lb - size));
    }
}

/// A rolling window over the most recent samples: never more than
/// `size`, older samples discarded first.
pub struct SpectrumWindow {
    /// The transform size: how many samples a full window holds.
    pub size: usize,
    /// The buffered samples, oldest first, as raw 32-bit patterns.
    pub samples: Vec<u32>,
}

impl SpectrumWindow {
    /// The window never holds more than the transform size.
    pub open spec fn wf(&self) -> bool {
        self.samples@.len() <= self.size
    }

    /// An empty window for transforms of `size` samples.
    pub fn new(size: usize) -> (window: SpectrumWindow)
        ensures
            window.wf(),
            window.size == size,
            window.samples@.len() == 0,
    {
        SpectrumWindow { size, samples: Vec::new() }
    }

    /// Appends one captured block and discards the oldest excess: the
    /// window keeps exactly the most recent `size` samples of everything
    /// seen, or everything when less than `size` has arrived.
    pub fn push_block(&mut self, block: &Vec<u32>)
        requires
            old(self).wf(),
            old(self).samples@.len() + block@.len() <= usize::MAX,
        ensures
            final(self).wf(),
            final(self).size == old(self).size,
            final(self).samples@ == recent(
                old(self).samples@ + block@,
                old(self).size as int,
            ),
    {
        let ghost all = old(self).samples@ + block@;
        proof {
            assert(old(self).samples@ + block@.subrange(0, 0) =~= old(self).samples@);
        }
        let mut i: usize = 0;
        while i < block.len()
            invariant
                i <= block@.len(),
                self.size == old(self).size,
                self.samples@ == old(self).samples@ + block@.subrange(0, i as int),
            decreases block@.len() - i,
        {
            self.samples.push(block[i]);
            proof {
                assert(old(self).samples@ + block@.subrange(0, i as int + 1) =~= (old(
                    self,
                ).samples@ + block@.subrange(0, i as int)).push(block@[i as int]));
            }
            i += 1;
        }
        proof {
            assert(block@.subrange(0, block@.len() as int) =~= block@);
            assert(self.samples@ == all);
        }
        let total = self.samples.len();
        if total > self.size {
            let start = total - self.size;
            let mut kept: Vec<u32> = Vec::new();
            proof {
                assert(kept@ =~= all.subrange(start as int, start as int));
            }
            let mut j: usize = start;
            while j < total
                invariant
                    start <= j <= total,
                    start == total - self.size,
                    total == self.samples@.len(),
                    self.samples@ == all,
                    self.size == old(self).size,
                    kept@ == all.subrange(start as int, j as int),
                decreases total - j,
            {
                kept.push(self.samples[j]);
                proof {
                    assert(all.subrange(start as int, j as int + 1) =~= all.subrange(
                        start as int,
                        j as int,
                    ).push(all[j as int]));
                }
                j += 1;
            }
            self.samples = kept;
            proof {
                assert(all.skip(start as int) =~= all.subrange(start as int, total as int));
            }
        } else {
            proof {
                assert(all.skip(0) =~= all);
            }
        }
    }

    /// Whether the window holds a full transform's worth of samples.
    pub fn is_full(&self) -> (full: bool)
        ensures
            full <==> self.samples@.len() == self.size,
    {
        self.samples.len() == self.size
    }

    /// The spectrum variant's render-tick decision: a frame is drawn
    /// only when the window holds a full transform's worth of samples
    /// and the render interval has elapsed since the last drawn frame.
    pub fn should_render(&self, last_render_ms: u64, now_ms: u64) -> (go: bool)
        requires
            now_ms >= last_render_ms,
        ensures
            go <==> (self.samples@.len() == self.size && now_ms - last_render_ms
                >= RENDER_INTERVAL_MS),
    {
        self.samples.len() == self.size && now_ms - last_render_ms >= RENDER_INTERVAL_MS
    }
}

/// The column height for one bin's loudness: five discrete levels with
/// thresholds at -40, -30, -20 and -10 dB. Silence (or a bin whose
/// loudness is undefined) draws nothing.
pub open spec fn height_of(mag_cdb: Option<i32>) -> int {
    match mag_cdb {
        None => 0,
        Some(v) => if v < -4000 {
            0
        } else if v < -3000 {
            1
        } else if v < -2000 {
            2
        } else if v < -1000 {
            3
        } else {
            4
        },
    }
}

/// Quantizes one bin's loudness into its column height.
pub fn spectrum_height(mag_cdb: Option<i32>) -> (height: usize)
    ensures
        height as int == height_of(mag_cdb),
        height <= 4,
{
    match mag_cdb {
        None => 0,
        Some(v) => if v < -4000 {
            0
        } else if v < -3000 {
            1
        } else if v < -2000 {
            2
        } else if v < -1000 {
            3
        } else {
            4
        },
    }
}

/// The dots of a column of height `h` at sub-column parity `p`: `h` rows
/// lit from the bottom row up.
pub open spec fn column_mask(p: int, h: int) -> u8 {
    if p == 0 {
        if h <= 0 {
            0u8
        } else if h == 1 {
            0x40u8
        } else if h == 2 {
            0x44u8
        } else if h == 3 {
            0x46u8
        } else {
            0x47u8
        }
    } else {
        if h <= 0 {
            0u8
        } else if h == 1 {
            0x80u8
        } else if h == 2 {
            0xA0u8
        } else if h == 3 {
            0xB0u8
        } else {
            0xB8u8
        }
    }
}

/// Growing a column by one dot lights the next row up.
proof fn lemma_column_step(m: u8, p: int, y: int)
    requires
        0 <= p < 2,
        0 <= y < 4,
    ensures
        (m | column_mask(p, y)) | bit_weight(p, 3 - y) == m | column_mask(p, y + 1),
{
    if p == 0 {
        if y == 0 {
            assert((m | 0u8) | 0x40u8 == m | 0x40u8) by (bit_vector);
        } else if y == 1 {
            assert((m | 0x40u8) | 0x04u8 == m | 0x44u8) by (bit_vector);
        } else if y == 2 {
            assert((m | 0x44u8) | 0x02u8 == m | 0x46u8) by (bit_vector);
        } else {
            assert((m | 0x46u8) | 0x01u8 == m | 0x47u8) by (bit_vector);
        }
    } else {
        if y == 0 {
            assert((m | 0u8) | 0x80u8 == m | 0x80u8) by (bit_vector);
        } else if y == 1 {
            assert((m | 0x80u8) | 0x20u8 == m | 0xA0u8) by (bit_vector);
        } else if y == 2 {
            assert((m | 0xA0u8) | 0x10u8 == m | 0xB0u8) by (bit_vector);
        } else {
            assert((m | 0xB0u8) | 0x08u8 == m | 0xB8u8) by (bit_vector);
        }
    }
}

/// ORing in no dots leaves a mask as it is.
proof fn lemma_or_zero_mask(m: u8)
    ensures
        m | 0u8 == m,
        0u8 | m == m,
{
    assert(m | 0u8 == m) by (bit_vector);
    assert(0u8 | m == m) by (bit_vector);
}

/// The loudness of bin `k`, with bins past the end silent.
pub open spec fn bin_at(mags: Seq<Option<i32>>, k: int) -> Option<i32> {
    if 0 <= k < mags.len() {
        mags[k]
    } else {
        None
    }
}

/// The dot mask of cell `c` once the first `i` bins are drawn: the even
/// bin fills the cell's left sub-column, the odd bin its right.
pub open spec fn spectrum_cell_mask(mags: Seq<Option<i32>>, c: int, i: int) -> u8 {
    if 2 * c + 1 < i {
        column_mask(0, height_of(bin_at(mags, 2 * c))) | column_mask(
            1,
            height_of(bin_at(mags, 2 * c + 1)),
        )
    } else if 2 * c < i {
        column_mask(0, height_of(bin_at(mags, 2 * c)))
    } else {
        0u8
    }
}

/// Rasterizes one spectrum frame: bin `k`'s quantized height, drawn as a
/// column at sub-column `k`, for as many bins as fit on `cells` cells.
pub fn render_spectrum(mags: &Vec<Option<i32>>, cells: usize) -> (glyphs: Vec<char>)
    requires
        cells <= usize::MAX / 2,
    ensures
        glyphs@.len() == cells,
        forall|c: int|
            0 <= c < cells ==> glyphs@[c] as u32 == 0x2800 + spectrum_cell_mask(
                mags@,
                c,
                vstd::math::min(mags@.len() as int, 2 * cells as int),
            ),
{
    let mut line = Line::new(cells);
    let nbins = if mags.len() < cells * 2 {
        mags.len()
    } else {
        cells * 2
    };
    let mut k: usize = 0;
    while k < nbins
        invariant
            line.wf(),
            line.width == 2 * cells,
            line@.len() == cells,
            k <= nbins,
            cells <= usize::MAX / 2,
            nbins == vstd::math::min(mags@.len() as int, 2 * cells as int),
            forall|c: int| 0 <= c < cells ==> line@[c] == spectrum_cell_mask(mags@, c, k as int),
        decreases nbins - k,
    {
        let height = spectrum_height(mags[k]);
        let ghost c0 = k as int / 2;
        let ghost p = k as int % 2;
        let ghost before = line@[c0];
        proof {
            assert(height as int == height_of(bin_at(mags@, k as int)));
            lemma_or_zero_mask(before);
        }
        let ghost snap = line@;
        let mut y: usize = 0;
        while y < height
            invariant
                line.wf(),
                line.width == 2 * cells,
                line@.len() == cells,
                y <= height,
                height <= 4,
                height as int == height_of(bin_at(mags@, k as int)),
                k < nbins,
                nbins as int <= 2 * cells,
                c0 == k as int / 2,
                p == k as int % 2,
                0 <= c0 < cells,
                snap[c0] == before,
                forall|c: int|
                    0 <= c < cells ==> snap[c] == spectrum_cell_mask(mags@, c, k as int),
                line@[c0] == before | column_mask(p, y as int),
                forall|c: int| 0 <= c < cells && c != c0 ==> line@[c] == snap[c],
            decreases height - y,
        {
            line.set(k, 3 - y);
            proof {
                lemma_column_step(before, p, y as int);
            }
            y += 1;
        }
        proof {
            assert(line@[c0] == before | column_mask(p, height_of(bin_at(mags@, k as int))));
            assert forall|c: int| 0 <= c < cells implies line@[c] == spectrum_cell_mask(
                mags@,
                c,
                k as int + 1,
            ) by {
                let ki = k as int;
                assert(ki == 2 * c0 + p);
                if c == c0 {
                    if p == 0 {
                        assert(spectrum_cell_mask(mags@, c0, ki) == 0u8);
                        assert(spectrum_cell_mask(mags@, c0, ki + 1) == column_mask(
                            0,
                            height_of(bin_at(mags@, 2 * c0)),
                        ));
                        lemma_or_zero_mask(column_mask(0, height_of(bin_at(mags@, 2 * c0))));
                    } else {
                        assert(spectrum_cell_mask(mags@, c0, ki) == column_mask(
                            0,
                            height_of(bin_at(mags@, 2 * c0)),
                        ));
                        assert(spectrum_cell_mask(mags@, c0, ki + 1) == column_mask(
                            0,
                            height_of(bin_at(mags@, 2 * c0)),
                        ) | column_mask(1, height_of(bin_at(mags@, 2 * c0 + 1))));
                    }
                } else {
                    assert(line@[c] == snap[c]);
                    if 2 * c + 1 == ki {
                        assert(c == c0);
                    }
                    if 2 * c == ki {
                        assert(c == c0);
                    }
                    assert(spectrum_cell_mask(mags@, c, ki + 1) == spectrum_cell_mask(
                        mags@,
                        c,
                        ki,
                    ));
                }
            }
        }
        k += 1;
    }
    line.render()
}

} // verus!
