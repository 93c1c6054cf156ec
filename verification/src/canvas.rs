//! The dot-matrix canvas: a fixed-height raster of `width` glyph cells,
//! addressable at double horizontal density, that serializes to Braille
//! glyphs.
//!
//! Each glyph cell holds an 8-bit dot mask; a dot at sub-column parity
//! `xp` (0 or 1) and row `y` (0..4) contributes a fixed bit weight, and a
//! cell's glyph is the Braille block character at code point
//! `0x2800 + mask`.

use vstd::prelude::*;

verus! {

/// The fixed bit weight of the dot at sub-column parity `xp` (0 for the
/// left sub-column of a cell, 1 for the right) and row `y` (0 at the top,
/// 3 at the bottom). These are the Braille block's dot positions.
pub open spec fn bit_weight(xp: int, y: int) -> u8 {
    if xp == 0 {
        if y == 0 {
            0x01
        } else if y == 1 {
            0x02
        } else if y == 2 {
            0x04
        } else {
            0x40
        }
    } else {
        if y == 0 {
            0x08
        } else if y == 1 {
            0x10
        } else if y == 2 {
            0x20
        } else {
            0x80
        }
    }
}

/// The eight dots of one cell together light every bit of the mask: a cell
/// with all of (0,0)..(1,3) set renders as the full Braille pattern, mask
/// 0xFF.
pub proof fn lemma_full_cell_mask()
    ensures
        bit_weight(0, 0) | bit_weight(1, 0) | bit_weight(0, 1) | bit_weight(1, 1) | bit_weight(
            0,
            2,
        ) | bit_weight(1, 2) | bit_weight(0, 3) | bit_weight(1, 3) == 0xFF,
{
    assert(0x01u8 | 0x08u8 | 0x02u8 | 0x10u8 | 0x04u8 | 0x20u8 | 0x40u8 | 0x80u8 == 0xFFu8)
        by (bit_vector);
}

/// One line of the dot-matrix display: `width` addressable sub-columns
/// over `width / 2` glyph cells, four rows deep.
pub struct Line {
    /// The number of addressable sub-columns: twice the number of cells.
    pub width: usize,
    /// One dot mask per glyph cell.
    pub data: Vec<u8>,
}

impl View for Line {
    type V = Seq<u8>;

    /// A line is modelled as the sequence of its cells' dot masks.
    open spec fn view(&self) -> Seq<u8> {
        self.data@
    }
}

impl Line {
    /// The width field counts sub-columns: two per stored cell.
    pub open spec fn wf(&self) -> bool {
        self.width == 2 * self@.len()
    }

    /// A fresh line of `width` glyph cells, every dot dark.
    pub fn new(width: usize) -> (line: Line)
        requires
            width <= usize::MAX / 2,
        ensures
            line.wf(),
            line@.len() == width,
            line.width == 2 * width,
            forall|i: int| 0 <= i < width ==> line@[i] == 0u8,
    {
        let mut data = Vec::new();
        for _i in 0..width
            invariant
                data@.len() == _i,
                forall|j: int| 0 <= j < _i ==> data@[j] == 0u8,
        {
            data.push(0);
        }
        let width = width * 2;
        Line { width, data }
    }

    /// Lights the dot at sub-column `x`, row `y`: ORs the dot's bit weight
    /// into the mask of cell `x / 2`. Out-of-range coordinates are a
    /// caller's error, ruled out up front.
    pub fn set(&mut self, x: usize, y: usize)
        requires
            old(self).wf(),
            x < old(self).width,
            y < 4,
        ensures
            final(self).wf(),
            final(self).width == old(self).width,
            final(self)@ == old(self)@.update(
                x as int / 2,
                old(self)@[x as int / 2] | bit_weight(x as int % 2, y as int),
            ),
    {
        let idx = x / 2;
        let weight: u8 = if x % 2 == 0 {
            if y == 0 {
                0x01
            } else if y == 1 {
                0x02
            } else if y == 2 {
                0x04
            } else {
                0x40
            }
        } else {
            if y == 0 {
                0x08
            } else if y == 1 {
                0x10
            } else if y == 2 {
                0x20
            } else {
                0x80
            }
        };
        let cur = self.data[idx];
        self.data.set(idx, cur | weight);
    }

    /// Serializes the line: one Braille glyph per cell, the glyph of a
    /// cell being the Braille block character at `0x2800 + mask`.
    pub fn render(&self) -> (glyphs: Vec<char>)
        ensures
            glyphs@.len() == self@.len(),
            forall|i: int|
                0 <= i < self@.len() ==> (glyphs@[i] as u32) == 0x2800 + self@[i],
    {
        let mut glyphs: Vec<char> = Vec::new();
        let n = self.data.len();
        for i in 0..n
            invariant
                n == self@.len(),
                glyphs@.len() == i,
                forall|j: int| 0 <= j < i ==> (glyphs@[j] as u32) == 0x2800 + self@[j],
        {
            glyphs.push(braille_char(self.data[i]));
        }
        glyphs
    }
}

/// Relies on char::from_u32: every value in 0x2800..=0x28FF is a valid
/// Unicode scalar (the Braille patterns block), so the call returns the
/// character with exactly that code point and never fails.
#[verifier::external_body]
fn braille_char(mask: u8) -> (c: char)
    ensures
        c as u32 == 0x2800 + mask as u32,
{
    char::from_u32(0x2800 | mask as u32).unwrap()
}

} // verus!
