//! The 256-slot output palette for indexed-image export, and the
//! tolerance search that maps an arbitrary pixel to a palette slot.

use crate::color_matcher::{color_matches, first_color_match, lemma_first_color_match_characterization};
use crate::palette::{Color, Palette};
use vstd::prelude::*;

verus! {

/// The color stored at slot `i` of a flat `r g b` byte table.
pub open spec fn slot_color(bytes: Seq<u8>, i: int) -> Color {
    Color { r: bytes[3 * i], g: bytes[3 * i + 1], b: bytes[3 * i + 2] }
}

/// The 256 colors of a flat `r g b` byte table, slot by slot.
pub open spec fn slot_colors(bytes: Seq<u8>) -> Seq<Color> {
    Seq::new(256, |i: int| slot_color(bytes, i))
}

/// The first of the 256 slots whose color matches `pixel` within
/// `tolerance`: slots are searched in ascending order and the first match
/// wins, which makes ties deterministic.
pub open spec fn first_match(bytes: Seq<u8>, pixel: Color, tolerance: u8) -> Option<int> {
    first_color_match(slot_colors(bytes), pixel, tolerance)
}

/// What the slot search returns, spelled out: either the least matching
/// slot, or `None` when no slot matches at all.
pub proof fn lemma_first_match_characterization(bytes: Seq<u8>, pixel: Color, tolerance: u8)
    ensures
        match first_match(bytes, pixel, tolerance) {
            Some(i) => 0 <= i < 256 && color_matches(slot_color(bytes, i), pixel, tolerance)
                && forall|j: int|
                0 <= j < i ==> !color_matches(slot_color(bytes, j), pixel, tolerance),
            None => forall|j: int|
                0 <= j < 256 ==> !color_matches(slot_color(bytes, j), pixel, tolerance),
        },
{
    lemma_first_color_match_characterization(slot_colors(bytes), pixel, tolerance);
    assert forall|j: int| 0 <= j < 256 implies slot_colors(bytes)[j] == slot_color(bytes, j) by {}
}

/// A fixed 256-slot color table for indexed-image export, 3 bytes per
/// slot, with an append cursor for incremental building.  Only the slots
/// filled from a palette are meaningful; the rest stay white.
pub struct PngPalette {
    pal: Vec<u8>,
    index: usize,
}

impl PngPalette {
    /// The table always holds exactly 256 * 3 bytes and the cursor never
    /// passes the last slot.
    pub closed spec fn wf(self) -> bool {
        self.pal@.len() == 768 && self.index <= 256
    }

    /// The raw `r g b` bytes of all 256 slots.
    pub closed spec fn bytes(self) -> Seq<u8> {
        self.pal@
    }

    /// The next free slot for `push`.
    pub closed spec fn cursor(self) -> int {
        self.index as int
    }

    /// The color of slot `i`.
    pub open spec fn slot(self, i: int) -> Color {
        slot_color(self.bytes(), i)
    }

    /// A fresh table: every slot white, cursor at slot 0.
    pub fn new() -> (out: Self)
        ensures
            out.wf(),
            out.cursor() == 0,
            forall|j: int| 0 <= j < 768 ==> out.bytes()[j] == 255,
    {
        let mut pal: Vec<u8> = Vec::new();
        let mut j: usize = 0;
        while j < 768
            invariant
                j <= 768,
                pal@.len() == j,
                forall|k: int| 0 <= k < j ==> pal@[k] == 255,
            decreases 768 - j,
        {
            pal.push(255);
            j = j + 1;
        }
        PngPalette { pal, index: 0 }
    }

    /// Overwrite slot `index` with `color`; reports whether the slot
    /// exists.  Out-of-range writes change nothing.
    pub fn set(&mut self, index: usize, color: Color) -> (ok: bool)
        requires
            old(self).wf(),
        ensures
            final(self).wf(),
            ok == (index < 256),
            final(self).cursor() == old(self).cursor(),
            index < 256 ==> final(self).bytes() == old(self).bytes().update(
                3 * index as int,
                color.r,
            ).update(3 * index as int + 1, color.g).update(3 * index as int + 2, color.b),
            index >= 256 ==> *final(self) == *old(self),
    {
        if index < 256 {
            self.pal.set(index * 3, color.r);
            self.pal.set(index * 3 + 1, color.g);
            self.pal.set(index * 3 + 2, color.b);
            return true;
        }
        false
    }

    /// Append `color` at the cursor and advance it; reports whether a free
    /// slot was left.  A full table stays unchanged.
    pub fn push(&mut self, color: Color) -> (ok: bool)
        requires
            old(self).wf(),
        ensures
            final(self).wf(),
            ok == (old(self).cursor() < 256),
            ok ==> final(self).cursor() == old(self).cursor() + 1,
            ok ==> final(self).bytes() == old(self).bytes().update(
                3 * old(self).cursor(),
                color.r,
            ).update(3 * old(self).cursor() + 1, color.g).update(
                3 * old(self).cursor() + 2,
                color.b,
            ),
            !ok ==> *final(self) == *old(self),
    {
        let cursor = self.index;
        let ok = self.set(cursor, color);
        if ok {
            self.index = cursor + 1;
        }
        ok
    }

    /// The raw palette bytes, for handing to an indexed-image encoder.
    pub fn as_bytes(&self) -> (out: &Vec<u8>)
        ensures
            out@ == self.bytes(),
    {
        &self.pal
    }

    /// The first slot holding exactly `color`, if any.
    ///
    /// Exact lookup is tolerance search with tolerance 0: a window of
    /// width zero admits nothing but equality.
    pub fn index_of(&self, color: Color) -> (r: Option<usize>)
        requires
            self.wf(),
        ensures
            r matches Some(i) ==> first_match(self.bytes(), color, 0) == Some(i as int),
            r is None ==> first_match(self.bytes(), color, 0) is None,
    {
        self.index_of_with_tolerance(color, 0)
    }

    /// The first slot whose color matches `color` within `tolerance`,
    /// searching slots in ascending order; `None` when no slot matches.
    pub fn index_of_with_tolerance(&self, color: Color, tolerance: u8) -> (r: Option<usize>)
        requires
            self.wf(),
        ensures
            r matches Some(i) ==> first_match(self.bytes(), color, tolerance) == Some(i as int),
            r is None ==> first_match(self.bytes(), color, tolerance) is None,
    {
        let lo_r = color.r.saturating_sub(tolerance);
        let hi_r = color.r.saturating_add(tolerance);
        let lo_g = color.g.saturating_sub(tolerance);
        let hi_g = color.g.saturating_add(tolerance);
        let lo_b = color.b.saturating_sub(tolerance);
        let hi_b = color.b.saturating_add(tolerance);
        let mut i: usize = 0;
        while i < 256
            invariant
                i <= 256,
                self.wf(),
                lo_r == color.r.saturating_sub(tolerance),
                hi_r == color.r.saturating_add(tolerance),
                lo_g == color.g.saturating_sub(tolerance),
                hi_g == color.g.saturating_add(tolerance),
                lo_b == color.b.saturating_sub(tolerance),
                hi_b == color.b.saturating_add(tolerance),
                forall|j: int| 0 <= j < i ==> !color_matches(self.slot(j), color, tolerance),
            decreases 256 - i,
        {
            let cr = self.pal[3 * i];
            let cg = self.pal[3 * i + 1];
            let cb = self.pal[3 * i + 2];
            if lo_r <= cr && cr <= hi_r && lo_g <= cg && cg <= hi_g && lo_b <= cb && cb <= hi_b {
                proof {
                    assert(color_matches(self.slot(i as int), color, tolerance));
                    lemma_first_match_characterization(self.bytes(), color, tolerance);
                    let fm = first_match(self.bytes(), color, tolerance);
                    if fm is None {
                        assert(!color_matches(slot_color(self.bytes(), i as int), color, tolerance));
                        assert(false);
                    } else {
                        let k = fm->Some_0;
                        if k < i as int {
                            assert(!color_matches(self.slot(k), color, tolerance));
                            assert(false);
                        } else if k > i as int {
                            assert(!color_matches(
                                slot_color(self.bytes(), i as int),
                                color,
                                tolerance,
                            ));
                            assert(false);
                        }
                    }
                }
                return Some(i);
            }
            proof {
                assert(!color_matches(self.slot(i as int), color, tolerance));
            }
            i = i + 1;
        }
        proof {
            lemma_first_match_characterization(self.bytes(), color, tolerance);
            let fm = first_match(self.bytes(), color, tolerance);
            if fm is Some {
                let k = fm->Some_0;
                assert(!color_matches(self.slot(k), color, tolerance));
                assert(false);
            }
        }
        None
    }

    /// Build the output table for a palette: the palette's 17 colors in
    /// slots 0 to 16, every further slot white, cursor at slot 0.
    pub fn from_palette(palette: &Palette) -> (out: Self)
        ensures
            out.wf(),
            out.cursor() == 0,
            out.bytes() == output_palette_bytes(*palette),
            forall|i: int| 0 <= i < 17 ==> out.slot(i) == palette.colors()[i],
            forall|i: int|
                17 <= i < 256 ==> out.slot(i) == (Color { r: 255, g: 255, b: 255 }),
    {
        let data = palette.encode();
        let mut pal: Vec<u8> = Vec::new();
        let mut j: usize = 0;
        while j < 51
            invariant
                j <= 51,
                pal@.len() == j,
                data@ == palette.encoded(),
                forall|k: int| 0 <= k < j ==> pal@[k] == palette.byte_at(k),
            decreases 51 - j,
        {
            pal.push(data[j]);
            j = j + 1;
        }
        while j < 768
            invariant
                51 <= j <= 768,
                pal@.len() == j,
                forall|k: int| 0 <= k < 51 ==> pal@[k] == palette.byte_at(k),
                forall|k: int| 51 <= k < j ==> pal@[k] == 255,
            decreases 768 - j,
        {
            pal.push(255);
            j = j + 1;
        }
        let out = PngPalette { pal, index: 0 };
        proof {
            assert(out.bytes() =~= output_palette_bytes(*palette));
            assert forall|i: int| 0 <= i < 17 implies out.slot(i) == palette.colors()[i] by {
                assert((3 * i) / 3 == i && (3 * i) % 3 == 0) by (nonlinear_arith);
                assert((3 * i + 1) / 3 == i && (3 * i + 1) % 3 == 1) by (nonlinear_arith);
                assert((3 * i + 2) / 3 == i && (3 * i + 2) % 3 == 2) by (nonlinear_arith);
            }
        }
        out
    }
}

/// The bytes of the output table built from a palette: the palette's 51
/// color bytes, then white up to slot 255.
pub open spec fn output_palette_bytes(palette: Palette) -> Seq<u8> {
    Seq::new(768, |j: int| if j < 51 { palette.byte_at(j) } else { 255u8 })
}

impl Default for PngPalette {
    /// Same as `new`: an all-white table with the cursor at slot 0.
    fn default() -> (out: Self)
        ensures
            out.wf(),
            out.cursor() == 0,
            forall|j: int| 0 <= j < 768 ==> out.bytes()[j] == 255,
    {
        Self::new()
    }
}

} // verus!
