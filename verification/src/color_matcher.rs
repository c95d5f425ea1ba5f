//! Matching an arbitrary RGB pixel against a table of reference colors
//! under a per-channel tolerance.

use crate::palette::{template_colors, Color, Palette};
use vstd::prelude::*;

verus! {

/// Stored channel `c` lies within the tolerance window around pixel
/// channel `p`, the window saturating at 0 and 255 (no wraparound).
///
/// Saturation comes for free in unbounded arithmetic: a byte is never
/// below `p - tolerance` when that bound is negative, nor above
/// `p + tolerance` when that bound exceeds 255.
pub open spec fn channel_matches(c: u8, p: u8, tolerance: u8) -> bool {
    p - tolerance <= c <= p + tolerance
}

/// Stored color `c` matches pixel `p` when every channel lies within the
/// tolerance window.
pub open spec fn color_matches(c: Color, p: Color, tolerance: u8) -> bool {
    &&& channel_matches(c.r, p.r, tolerance)
    &&& channel_matches(c.g, p.g, tolerance)
    &&& channel_matches(c.b, p.b, tolerance)
}

/// The first color in `colors` that matches `pixel` within `tolerance`,
/// searching from position `from` upward.
pub open spec fn first_color_match_from(
    colors: Seq<Color>,
    pixel: Color,
    tolerance: u8,
    from: int,
) -> Option<int>
    decreases colors.len() - from,
{
    if from < 0 || from >= colors.len() {
        None
    } else if color_matches(colors[from], pixel, tolerance) {
        Some(from)
    } else {
        first_color_match_from(colors, pixel, tolerance, from + 1)
    }
}

/// The first color in `colors` that matches `pixel` within `tolerance`:
/// colors are searched in ascending position order and the first match
/// wins, which makes ties deterministic.
pub open spec fn first_color_match(colors: Seq<Color>, pixel: Color, tolerance: u8) -> Option<int> {
    first_color_match_from(colors, pixel, tolerance, 0)
}

proof fn lemma_first_color_match_from_characterization(
    colors: Seq<Color>,
    pixel: Color,
    tolerance: u8,
    from: int,
)
    requires
        0 <= from <= colors.len(),
    ensures
        match first_color_match_from(colors, pixel, tolerance, from) {
            Some(i) => from <= i < colors.len() && color_matches(colors[i], pixel, tolerance)
                && forall|j: int| from <= j < i ==> !color_matches(colors[j], pixel, tolerance),
            None => forall|j: int|
                from <= j < colors.len() ==> !color_matches(colors[j], pixel, tolerance),
        },
    decreases colors.len() - from,
{
    if from < colors.len() {
        lemma_first_color_match_from_characterization(colors, pixel, tolerance, from + 1);
    }
}

/// What the search returns, spelled out: either the least matching
/// position, or `None` when no color matches at all.
pub proof fn lemma_first_color_match_characterization(
    colors: Seq<Color>,
    pixel: Color,
    tolerance: u8,
)
    ensures
        match first_color_match(colors, pixel, tolerance) {
            Some(i) => 0 <= i < colors.len() && color_matches(colors[i], pixel, tolerance)
                && forall|j: int| 0 <= j < i ==> !color_matches(colors[j], pixel, tolerance),
            None => forall|j: int|
                0 <= j < colors.len() ==> !color_matches(colors[j], pixel, tolerance),
        },
{
    lemma_first_color_match_from_characterization(colors, pixel, tolerance, 0);
}

/// A color always matches itself, whatever the tolerance: the search can
/// never miss a pixel that is exactly equal to a stored color.
pub proof fn lemma_exact_color_matches(c: Color, tolerance: u8)
    ensures
        color_matches(c, c, tolerance),
{
}

/// A stored color that is off by more than the tolerance in even one
/// channel — by `tolerance + 1`, say — does not match.
pub proof fn lemma_beyond_tolerance_misses(c: Color, p: Color, tolerance: u8)
    requires
        c.r > p.r + tolerance || c.r < p.r - tolerance || c.g > p.g + tolerance || c.g < p.g
            - tolerance || c.b > p.b + tolerance || c.b < p.b - tolerance,
    ensures
        !color_matches(c, p, tolerance),
{
}

/// A pixel exactly equal to one of the colors is always found: the search
/// returns some position, no later than that color's own.
pub proof fn lemma_exact_pixel_is_found(colors: Seq<Color>, pixel: Color, i: int, tolerance: u8)
    requires
        0 <= i < colors.len(),
        colors[i] == pixel,
    ensures
        first_color_match(colors, pixel, tolerance) matches Some(k) && k <= i,
{
    lemma_first_color_match_characterization(colors, pixel, tolerance);
}

/// A pixel beyond tolerance of every color is never matched.
pub proof fn lemma_unmatchable_pixel_is_missed(colors: Seq<Color>, pixel: Color, tolerance: u8)
    requires
        forall|j: int| 0 <= j < colors.len() ==> !color_matches(colors[j], pixel, tolerance),
    ensures
        first_color_match(colors, pixel, tolerance) is None,
{
    lemma_first_color_match_characterization(colors, pixel, tolerance);
}

/// In the built-in template any two distinct colors are at least 32 apart
/// in some channel.  So below that spacing, a pixel exactly equal to a
/// template color is matched at that color's own slot, whatever the
/// tolerance: no earlier slot can steal it.
pub proof fn lemma_template_exact_pixel_finds_its_slot(i: int, tolerance: u8)
    requires
        0 <= i < 17,
        tolerance <= 31,
    ensures
        first_color_match(template_colors(), template_colors()[i], tolerance) == Some(i),
{
    let colors = template_colors();
    let pixel = colors[i];
    lemma_first_color_match_characterization(colors, pixel, tolerance);
    assert forall|j: int| 0 <= j < 17 && j != i implies !color_matches(
        colors[j],
        pixel,
        tolerance,
    ) by {
        assert(!color_matches(colors[j], colors[i], tolerance));
    }
    let fm = first_color_match(colors, pixel, tolerance);
    if fm is None {
        assert(!color_matches(colors[i], pixel, tolerance));
        assert(false);
    } else {
        let k = fm->Some_0;
        if k != i {
            assert(!color_matches(colors[k], pixel, tolerance));
            assert(false);
        }
    }
}

/// The slot of the first of the template's 17 colors that matches `pixel`
/// within `tolerance`, in declaration order (`bg` through `lcd_off`), or
/// `None` when the pixel is left unmatched.
pub fn find_slot(template: &Palette, pixel: Color, tolerance: u8) -> (r: Option<usize>)
    ensures
        r matches Some(i) ==> first_color_match(template.colors(), pixel, tolerance) == Some(
            i as int,
        ),
        r is None ==> first_color_match(template.colors(), pixel, tolerance) is None,
{
    let lo_r = pixel.r.saturating_sub(tolerance);
    let hi_r = pixel.r.saturating_add(tolerance);
    let lo_g = pixel.g.saturating_sub(tolerance);
    let hi_g = pixel.g.saturating_add(tolerance);
    let lo_b = pixel.b.saturating_sub(tolerance);
    let hi_b = pixel.b.saturating_add(tolerance);
    let ghost colors = template.colors();
    let mut i: usize = 0;
    while i < 17
        invariant
            i <= 17,
            colors == template.colors(),
            lo_r == pixel.r.saturating_sub(tolerance),
            hi_r == pixel.r.saturating_add(tolerance),
            lo_g == pixel.g.saturating_sub(tolerance),
            hi_g == pixel.g.saturating_add(tolerance),
            lo_b == pixel.b.saturating_sub(tolerance),
            hi_b == pixel.b.saturating_add(tolerance),
            forall|j: int| 0 <= j < i ==> !color_matches(colors[j], pixel, tolerance),
        decreases 17 - i,
    {
        let c = template.color_at(i);
        if lo_r <= c.r && c.r <= hi_r && lo_g <= c.g && c.g <= hi_g && lo_b <= c.b && c.b <= hi_b {
            proof {
                assert(color_matches(colors[i as int], pixel, tolerance));
                lemma_first_color_match_characterization(colors, pixel, tolerance);
                let fm = first_color_match(colors, pixel, tolerance);
                if fm is None {
                    assert(!color_matches(colors[i as int], pixel, tolerance));
                    assert(false);
                } else {
                    let k = fm->Some_0;
                    if k < i as int {
                        assert(!color_matches(colors[k], pixel, tolerance));
                        assert(false);
                    } else if k > i as int {
                        assert(!color_matches(colors[i as int], pixel, tolerance));
                        assert(false);
                    }
                }
            }
            return Some(i);
        }
        proof {
            assert(!color_matches(colors[i as int], pixel, tolerance));
        }
        i = i + 1;
    }
    proof {
        lemma_first_color_match_characterization(colors, pixel, tolerance);
        let fm = first_color_match(colors, pixel, tolerance);
        if fm is Some {
            let k = fm->Some_0;
            assert(!color_matches(colors[k], pixel, tolerance));
            assert(false);
        }
    }
    None
}

} // verus!
