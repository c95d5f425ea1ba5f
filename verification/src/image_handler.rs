//! Recoloring decoded images against a template palette, and the index
//! buffer geometry: nearest-neighbor scaling and tile merging.

use crate::color_matcher::{first_color_match, lemma_first_color_match_characterization};
use crate::palette::{Color, Error, Palette};
use crate::png_helper::{first_match, output_palette_bytes, PngPalette};
use vstd::prelude::*;

verus! {

/// How tiles fill the merged canvas: row by row or column by column.
#[derive(Clone, Copy, Debug, PartialEq, Eq, Structural)]
pub enum MergeLayout {
    Horizontal,
    Vertical,
}

impl Default for MergeLayout {
    /// Tiles fill row-major by default.
    fn default() -> (layout: MergeLayout)
        ensures
            layout == MergeLayout::Horizontal,
    {
        MergeLayout::Horizontal
    }
}

/// A decoded image: a row-major grid of RGB pixels.  Alpha is dropped
/// before the grid is built; the engine never sees it.
pub struct PixelGrid {
    pub width: usize,
    pub height: usize,
    pub pixels: Vec<Color>,
}

impl PixelGrid {
    /// The pixel buffer covers the announced dimensions exactly.
    pub open spec fn wf(self) -> bool {
        self.pixels@.len() == self.width * self.height
    }

    /// The pixel in column `x` of row `y`.
    pub open spec fn pixel_at(self, x: int, y: int) -> Color {
        self.pixels@[y * self.width + x]
    }
}

/// The template's matchable color count: all 17 slots except `lcd_off`.
pub const ALMOST_ALL_COLORS: usize = 16;

/// The per-channel tolerance that absorbs screenshot noise.
pub const TEMPLATE_TOLERANCE: u8 = 8;

/// The palette slot index written for one source pixel: the first of the
/// 256 output-palette slots matching it within `tolerance`, or the
/// sentinel 255 when none does.  (The sentinel is unambiguous: slots 17
/// to 255 all hold white, so a matching search can never get past 17.)
pub open spec fn palettized_index(template: Palette, pixel: Color, tolerance: u8) -> u8 {
    match first_match(output_palette_bytes(template), pixel, tolerance) {
        Some(i) => i as u8,
        None => 255u8,
    }
}

/// The byte at column `x` of row `y` of a `width`-wide row-major buffer.
pub open spec fn buffer_pixel(buf: Seq<u8>, width: int, x: int, y: int) -> u8 {
    buf[y * width + x]
}

/// How many grid rows a merge of `count` tiles needs at `max_columns`
/// tiles per row: `count / max_columns`, rounded up.
pub open spec fn merge_rows(count: int, max_columns: int) -> int {
    (count + max_columns - 1) / max_columns
}

/// Every tile holds exactly `tile_width * tile_height` bytes.
pub open spec fn tiles_sized(tiles: Seq<Vec<u8>>, tile_width: int, tile_height: int) -> bool {
    forall|k: int| 0 <= k < tiles.len() ==> tiles[k]@.len() == tile_width * tile_height
}

/// The tile placed in grid cell `(cx, cy)`: row-major for the horizontal
/// layout, column-major for the vertical one.
pub open spec fn tile_of_cell(layout: MergeLayout, max_columns: int, cx: int, cy: int) -> int {
    match layout {
        MergeLayout::Horizontal => cy * max_columns + cx,
        MergeLayout::Vertical => cx * max_columns + cy,
    }
}

/// The byte shown at `(x, y)` of the merged canvas: the matching pixel of
/// the tile whose cell covers `(x, y)`, or the background fill 255 for a
/// cell beyond the last tile.
pub open spec fn merged_pixel(
    tiles: Seq<Vec<u8>>,
    tile_width: int,
    tile_height: int,
    max_columns: int,
    layout: MergeLayout,
    x: int,
    y: int,
) -> u8 {
    let k = tile_of_cell(layout, max_columns, x / tile_width, y / tile_height);
    if 0 <= k < tiles.len() {
        buffer_pixel(tiles[k]@, tile_width, x % tile_width, y % tile_height)
    } else {
        255u8
    }
}

/// The output pixel for one source pixel on the direct RGB path: the
/// target palette's color in the slot of the first template color that
/// matches the pixel within `tolerance`, or the source pixel unchanged
/// when no template color does.
pub open spec fn recolored_pixel(
    palette: Palette,
    template: Palette,
    pixel: Color,
    tolerance: u8,
) -> Color {
    match first_color_match(template.colors(), pixel, tolerance) {
        Some(i) => palette.colors()[i],
        None => pixel,
    }
}

/// How many of the pixels match some template color within `tolerance`.
pub open spec fn matched_count(pixels: Seq<Color>, template: Palette, tolerance: u8) -> int
    decreases pixels.len(),
{
    if pixels.len() == 0 {
        0
    } else {
        matched_count(pixels.drop_last(), template, tolerance) + (
        if first_color_match(template.colors(), pixels.last(), tolerance) is Some {
            1int
        } else {
            0int
        })
    }
}

/// Recoloring, scaling and merging of decoded images.
pub struct ImageHandler;

impl ImageHandler {
    /// Every distinct color of the image, each exactly once.
    pub fn find_unique_colors(image: &PixelGrid) -> (out: Vec<Color>)
        ensures
            forall|a: int, b: int| 0 <= a < b < out@.len() ==> out@[a] != out@[b],
            forall|k: int| 0 <= k < image.pixels@.len() ==> out@.contains(image.pixels@[k]),
            forall|a: int| 0 <= a < out@.len() ==> image.pixels@.contains(out@[a]),
    {
        let mut out: Vec<Color> = Vec::new();
        let mut k: usize = 0;
        while k < image.pixels.len()
            invariant
                k <= image.pixels@.len(),
                forall|a: int, b: int| 0 <= a < b < out@.len() ==> out@[a] != out@[b],
                forall|j: int| 0 <= j < k ==> out@.contains(image.pixels@[j]),
                forall|a: int| 0 <= a < out@.len() ==> image.pixels@.contains(out@[a]),
            decreases image.pixels@.len() - k,
        {
            let pixel = image.pixels[k];
            if !contains_color(&out, pixel) {
                let ghost seen = out@;
                out.push(pixel);
                proof {
                    assert(out@[out@.len() - 1] == pixel);
                    assert forall|j: int| 0 <= j < k implies out@.contains(image.pixels@[j]) by {
                        let w = choose|w: int|
                            0 <= w < seen.len() && seen[w] == image.pixels@[j];
                        assert(out@[w] == image.pixels@[j]);
                    }
                }
            } else {
                proof {
                    assert(out@.contains(image.pixels@[k as int]));
                }
            }
            k = k + 1;
        }
        out
    }

    /// The share, in whole percent, of the template's 16 matchable colors
    /// that a count of distinct source colors covers; 100 or more means
    /// full coverage.
    pub fn coverage_percent(distinct_count: usize) -> (p: usize)
        requires
            distinct_count * 100 <= usize::MAX,
        ensures
            p == distinct_count * 100 / (ALMOST_ALL_COLORS as int),
    {
        distinct_count * 100 / ALMOST_ALL_COLORS
    }

    /// Whether a count of distinct source colors covers the template's 16
    /// matchable colors in full — when it does not, the caller reports the
    /// shortfall as a warning, never as a failure.
    pub fn full_coverage(distinct_count: usize) -> (full: bool)
        ensures
            full == (distinct_count >= ALMOST_ALL_COLORS),
    {
        distinct_count >= ALMOST_ALL_COLORS
    }

    /// Expand an index buffer by an integer factor with nearest-neighbor
    /// block replication: each source pixel `(x, y)` fills the
    /// `factor x factor` destination block starting at
    /// `(x * factor, y * factor)`.  A factor of 1 returns the buffer
    /// unchanged; 0 or anything above 20 is rejected.
    pub fn scale(buffer: &Vec<u8>, width: usize, height: usize, factor: u8) -> (r: Result<
        (Vec<u8>, usize, usize),
        Error,
    >)
        requires
            buffer@.len() == width * height,
            1 <= factor <= 20 ==> width * factor <= usize::MAX,
            1 <= factor <= 20 ==> height * factor <= usize::MAX,
            1 <= factor <= 20 ==> (width * factor) * (height * factor) <= usize::MAX,
        ensures
            r is Ok <==> 1 <= factor <= 20,
            !(1 <= factor <= 20) ==> r == Err::<(Vec<u8>, usize, usize), Error>(
                Error::InvalidScaleFactor(factor),
            ),
            r matches Ok(t) ==> {
                &&& t.1 == width * factor
                &&& t.2 == height * factor
                &&& t.0@.len() == t.1 * t.2
                &&& forall|x: int, y: int|
                    0 <= x < t.1 && 0 <= y < t.2 ==> buffer_pixel(t.0@, t.1 as int, x, y)
                        == buffer_pixel(
                        buffer@,
                        width as int,
                        x / (factor as int),
                        y / (factor as int),
                    )
            },
            factor == 1 ==> (r matches Ok(t) && t.0@ == buffer@ && t.1 == width && t.2 == height),
    {
        if factor == 0 || factor > 20 {
            return Err(Error::InvalidScaleFactor(factor));
        }
        let f = factor as usize;
        proof {
            assert(width * height <= (width * f) * (height * f)) by (nonlinear_arith)
                requires
                    f >= 1,
                    width >= 0,
                    height >= 0,
            ;
        }
        let new_width = width * f;
        let new_height = height * f;
        if f == 1 {
            let out = buffer.clone();
            proof {
                assert forall|x: int, y: int|
                    0 <= x < new_width && 0 <= y < new_height implies buffer_pixel(
                    out@,
                    new_width as int,
                    x,
                    y,
                ) == buffer_pixel(
                    buffer@,
                    width as int,
                    x / (factor as int),
                    y / (factor as int),
                ) by {
                    assert(y / 1 == y && x / 1 == x);
                }
            }
            return Ok((out, new_width, new_height));
        }
        let mut out: Vec<u8> = Vec::new();
        let mut yo: usize = 0;
        while yo < new_height
            invariant
                yo <= new_height,
                f == factor,
                1 <= f <= 20,
                new_width == width * f,
                new_height == height * f,
                buffer@.len() == width * height,
                width * height <= usize::MAX,
                new_width * new_height <= usize::MAX,
                out@.len() == yo * new_width,
                forall|x: int, y: int|
                    0 <= x < new_width && 0 <= y < yo ==> buffer_pixel(out@, new_width as int, x, y)
                        == buffer_pixel(buffer@, width as int, x / (f as int), y / (f as int)),
            decreases new_height - yo,
        {
            let mut xo: usize = 0;
            proof {
                assert(yo * new_width + new_width == (yo + 1) * new_width) by (nonlinear_arith);
                assert((yo + 1) * new_width <= new_height * new_width) by (nonlinear_arith)
                    requires
                        yo + 1 <= new_height,
                        new_width >= 0,
                ;
                assert(new_height * new_width == new_width * new_height) by (nonlinear_arith);
            }
            while xo < new_width
                invariant
                    xo <= new_width,
                    yo < new_height,
                    f == factor,
                    1 <= f <= 20,
                    new_width == width * f,
                    new_height == height * f,
                    buffer@.len() == width * height,
                    width * height <= usize::MAX,
                    yo * new_width + new_width <= usize::MAX,
                    out@.len() == yo * new_width + xo,
                    forall|x: int, y: int|
                        0 <= x < new_width && 0 <= y < yo ==> buffer_pixel(
                            out@,
                            new_width as int,
                            x,
                            y,
                        ) == buffer_pixel(buffer@, width as int, x / (f as int), y / (f as int)),
                    forall|x: int|
                        0 <= x < xo ==> buffer_pixel(out@, new_width as int, x, yo as int)
                            == buffer_pixel(
                            buffer@,
                            width as int,
                            x / (f as int),
                            yo as int / (f as int),
                        ),
                decreases new_width - xo,
            {
                let sy = yo / f;
                let sx = xo / f;
                proof {
                    assert(sy < height && sx < width) by (nonlinear_arith)
                        requires
                            f >= 1,
                            yo < height * f,
                            xo < width * f,
                            sy == yo as int / f as int,
                            sx == xo as int / f as int,
                    ;
                    assert(sy * width + sx < height * width) by (nonlinear_arith)
                        requires
                            sy < height,
                            sx < width,
                            width >= 1,
                    ;
                    assert(height * width == width * height) by (nonlinear_arith);
                }
                let ghost old_out = out@;
                out.push(buffer[sy * width + sx]);
                proof {
                    assert forall|x: int, y: int|
                        0 <= x < new_width && 0 <= y < yo implies buffer_pixel(
                        out@,
                        new_width as int,
                        x,
                        y,
                    ) == buffer_pixel(buffer@, width as int, x / (f as int), y / (f as int)) by {
                        assert(y * new_width + x < yo * new_width) by (nonlinear_arith)
                            requires
                                y + 1 <= yo,
                                0 <= x < new_width,
                        ;
                        assert(y * new_width + x < old_out.len());
                        assert(out@[y * new_width + x] == old_out[y * new_width + x]);
                        assert(buffer_pixel(old_out, new_width as int, x, y) == buffer_pixel(
                            buffer@,
                            width as int,
                            x / (f as int),
                            y / (f as int),
                        ));
                    }
                    assert forall|x: int| 0 <= x <= xo implies buffer_pixel(
                        out@,
                        new_width as int,
                        x,
                        yo as int,
                    ) == buffer_pixel(buffer@, width as int, x / (f as int), yo as int / (f as int))
                        by {
                        if x < xo {
                            assert(out@[yo * new_width + x] == old_out[yo * new_width + x]);
                            assert(buffer_pixel(old_out, new_width as int, x, yo as int)
                                == buffer_pixel(
                                buffer@,
                                width as int,
                                x / (f as int),
                                yo as int / (f as int),
                            ));
                        } else {
                            assert(out@[yo * new_width + xo] == buffer@[sy * width + sx]);
                        }
                    }
                }
                xo = xo + 1;
            }
            proof {
                assert(yo * new_width + new_width == (yo + 1) * new_width) by (nonlinear_arith);
            }
            yo = yo + 1;
        }
        proof {
            assert(out@.len() == new_height * new_width);
            assert(new_height * new_width == new_width * new_height) by (nonlinear_arith);
        }
        Ok((out, new_width, new_height))
    }

    /// Composite equally-sized tiles into one canvas along a grid with
    /// `max_columns` tiles per grid row: row-major for the horizontal
    /// layout, column-major (with the canvas sides swapped) for the
    /// vertical one.  Cells beyond the last tile keep the background fill
    /// 255.  A tile of any other size than announced is rejected.
    pub fn merge(
        tiles: &Vec<Vec<u8>>,
        tile_width: usize,
        tile_height: usize,
        max_columns: usize,
        layout: MergeLayout,
    ) -> (r: Result<(Vec<u8>, usize, usize), Error>)
        requires
            max_columns >= 1,
            tile_width * tile_height <= usize::MAX,
            layout == MergeLayout::Horizontal ==> max_columns * tile_width <= usize::MAX
                && merge_rows(tiles@.len() as int, max_columns as int) * tile_height <= usize::MAX
                && (max_columns * tile_width) * (merge_rows(tiles@.len() as int, max_columns as int)
                * tile_height) <= usize::MAX,
            layout == MergeLayout::Vertical ==> merge_rows(tiles@.len() as int, max_columns as int)
                * tile_width <= usize::MAX && max_columns * tile_height <= usize::MAX && (merge_rows(
                tiles@.len() as int,
                max_columns as int,
            ) * tile_width) * (max_columns * tile_height) <= usize::MAX,
        ensures
            r is Ok <==> tiles_sized(tiles@, tile_width as int, tile_height as int),
            !tiles_sized(tiles@, tile_width as int, tile_height as int) ==> r == Err::<
                (Vec<u8>, usize, usize),
                Error,
            >(Error::MismatchedTileDimensions),
            r matches Ok(t) ==> {
                let rows = merge_rows(tiles@.len() as int, max_columns as int);
                &&& layout == MergeLayout::Horizontal ==> t.1 == max_columns * tile_width && t.2
                    == rows * tile_height
                &&& layout == MergeLayout::Vertical ==> t.1 == rows * tile_width && t.2
                    == max_columns * tile_height
                &&& t.0@.len() == t.1 * t.2
                &&& forall|x: int, y: int|
                    0 <= x < t.1 && 0 <= y < t.2 ==> buffer_pixel(t.0@, t.1 as int, x, y)
                        == merged_pixel(
                        tiles@,
                        tile_width as int,
                        tile_height as int,
                        max_columns as int,
                        layout,
                        x,
                        y,
                    )
            },
    {
        let expected = tile_width * tile_height;
        let mut k: usize = 0;
        while k < tiles.len()
            invariant
                k <= tiles@.len(),
                expected == tile_width * tile_height,
                forall|j: int| 0 <= j < k ==> tiles@[j]@.len() == tile_width * tile_height,
            decreases tiles@.len() - k,
        {
            if tiles[k].len() != expected {
                return Err(Error::MismatchedTileDimensions);
            }
            k = k + 1;
        }
        let count = tiles.len();
        let rows = if count == 0 {
            0
        } else {
            proof {
                vstd::arithmetic::div_mod::lemma_div_nonincreasing(
                    count - 1,
                    max_columns as int,
                );
            }
            (count - 1) / max_columns + 1
        };
        proof {
            let n = count as int;
            let c = max_columns as int;
            if n == 0 {
                vstd::arithmetic::div_mod::lemma_fundamental_div_mod_converse(c - 1, c, 0, c - 1);
            } else {
                let q = (n - 1) / c;
                let rem = (n - 1) % c;
                vstd::arithmetic::div_mod::lemma_fundamental_div_mod(n - 1, c);
                vstd::arithmetic::div_mod::lemma_mod_bound(n - 1, c);
                assert(n + c - 1 == (q + 1) * c + rem) by (nonlinear_arith)
                    requires
                        n - 1 == c * q + rem,
                ;
                vstd::arithmetic::div_mod::lemma_fundamental_div_mod_converse(
                    n + c - 1,
                    c,
                    q + 1,
                    rem,
                );
            }
            assert(rows == merge_rows(n, c));
        }
        let (canvas_width, canvas_height) = match layout {
            MergeLayout::Horizontal => (max_columns * tile_width, rows * tile_height),
            MergeLayout::Vertical => (rows * tile_width, max_columns * tile_height),
        };
        proof {
            assert((rows * tile_width) * (max_columns * tile_height) == (max_columns * tile_width)
                * (rows * tile_height)) by (nonlinear_arith);
        }
        let mut out: Vec<u8> = Vec::new();
        let mut y: usize = 0;
        while y < canvas_height
            invariant
                y <= canvas_height,
                max_columns >= 1,
                count == tiles@.len(),
                tile_width * tile_height <= usize::MAX,
                tiles_sized(tiles@, tile_width as int, tile_height as int),
                rows == merge_rows(tiles@.len() as int, max_columns as int),
                layout == MergeLayout::Horizontal ==> canvas_width == max_columns * tile_width
                    && canvas_height == rows * tile_height,
                layout == MergeLayout::Vertical ==> canvas_width == rows * tile_width
                    && canvas_height == max_columns * tile_height,
                canvas_width * canvas_height <= usize::MAX,
                out@.len() == y * canvas_width,
                forall|x2: int, y2: int|
                    0 <= x2 < canvas_width && 0 <= y2 < y ==> buffer_pixel(
                        out@,
                        canvas_width as int,
                        x2,
                        y2,
                    ) == merged_pixel(
                        tiles@,
                        tile_width as int,
                        tile_height as int,
                        max_columns as int,
                        layout,
                        x2,
                        y2,
                    ),
            decreases canvas_height - y,
        {
            let mut x: usize = 0;
            proof {
                assert(y * canvas_width + canvas_width == (y + 1) * canvas_width) by (nonlinear_arith);
                assert((y + 1) * canvas_width <= canvas_height * canvas_width) by (nonlinear_arith)
                    requires
                        y + 1 <= canvas_height,
                        canvas_width >= 0,
                ;
                assert(canvas_height * canvas_width == canvas_width * canvas_height) by (nonlinear_arith);
            }
            while x < canvas_width
                invariant
                    x <= canvas_width,
                    y < canvas_height,
                    max_columns >= 1,
                    count == tiles@.len(),
                    tile_width * tile_height <= usize::MAX,
                    tiles_sized(tiles@, tile_width as int, tile_height as int),
                    rows == merge_rows(tiles@.len() as int, max_columns as int),
                    layout == MergeLayout::Horizontal ==> canvas_width == max_columns * tile_width
                        && canvas_height == rows * tile_height,
                    layout == MergeLayout::Vertical ==> canvas_width == rows * tile_width
                        && canvas_height == max_columns * tile_height,
                    y * canvas_width + canvas_width <= usize::MAX,
                    out@.len() == y * canvas_width + x,
                    forall|x2: int, y2: int|
                        0 <= x2 < canvas_width && 0 <= y2 < y ==> buffer_pixel(
                            out@,
                            canvas_width as int,
                            x2,
                            y2,
                        ) == merged_pixel(
                            tiles@,
                            tile_width as int,
                            tile_height as int,
                            max_columns as int,
                            layout,
                            x2,
                            y2,
                        ),
                    forall|x2: int|
                        0 <= x2 < x ==> buffer_pixel(out@, canvas_width as int, x2, y as int)
                            == merged_pixel(
                            tiles@,
                            tile_width as int,
                            tile_height as int,
                            max_columns as int,
                            layout,
                            x2,
                            y as int,
                        ),
                decreases canvas_width - x,
            {
                proof {
                    if layout == MergeLayout::Horizontal {
                        assert(tile_width >= 1) by (nonlinear_arith)
                            requires
                                0 <= x < max_columns * tile_width,
                        ;
                        assert(tile_height >= 1) by (nonlinear_arith)
                            requires
                                0 <= y < rows * tile_height,
                        ;
                    } else {
                        assert(tile_width >= 1) by (nonlinear_arith)
                            requires
                                0 <= x < rows * tile_width,
                        ;
                        assert(tile_height >= 1) by (nonlinear_arith)
                            requires
                                0 <= y < max_columns * tile_height,
                        ;
                    }
                }
                let cx = x / tile_width;
                let cy = y / tile_height;
                let cell = match layout {
                    MergeLayout::Horizontal => match cy.checked_mul(max_columns) {
                        Some(v) => v.checked_add(cx),
                        None => None,
                    },
                    MergeLayout::Vertical => match cx.checked_mul(max_columns) {
                        Some(v) => v.checked_add(cy),
                        None => None,
                    },
                };
                let ghost spec_cell = tile_of_cell(
                    layout,
                    max_columns as int,
                    cx as int,
                    cy as int,
                );
                let value: u8 = match cell {
                    Some(cell_index) if cell_index < count => {
                        proof {
                            assert(spec_cell == cell_index as int);
                            assert(tiles@[cell_index as int]@.len() == tile_width * tile_height);
                            vstd::arithmetic::div_mod::lemma_mod_bound(y as int, tile_height as int);
                            vstd::arithmetic::div_mod::lemma_mod_bound(x as int, tile_width as int);
                            assert((y as int % tile_height as int) * tile_width + (x as int
                                % tile_width as int) < tile_height * tile_width) by (nonlinear_arith)
                                requires
                                    0 <= (y as int) % (tile_height as int),
                                    (y as int) % (tile_height as int) < tile_height,
                                    0 <= (x as int) % (tile_width as int),
                                    (x as int) % (tile_width as int) < tile_width,
                                    tile_width >= 1,
                            ;
                            assert(tile_height * tile_width == tile_width * tile_height) by (nonlinear_arith);
                        }
                        let tile = &tiles[cell_index];
                        tile[(y % tile_height) * tile_width + (x % tile_width)]
                    },
                    _ => {
                        proof {
                            if cell is Some {
                                assert(spec_cell == cell->Some_0 as int);
                                assert(spec_cell >= count);
                            } else {
                                if layout == MergeLayout::Horizontal {
                                    assert(spec_cell > usize::MAX) by (nonlinear_arith)
                                        requires
                                            spec_cell == cy as int * max_columns as int + cx as int,
                                            cy as int * max_columns as int > usize::MAX || cy as int
                                                * max_columns as int + cx as int > usize::MAX,
                                            cx >= 0,
                                    ;
                                } else {
                                    assert(spec_cell > usize::MAX) by (nonlinear_arith)
                                        requires
                                            spec_cell == cx as int * max_columns as int + cy as int,
                                            cx as int * max_columns as int > usize::MAX || cx as int
                                                * max_columns as int + cy as int > usize::MAX,
                                            cy >= 0,
                                    ;
                                }
                                assert(spec_cell >= tiles@.len());
                            }
                        }
                        255
                    },
                };
                let ghost old_out = out@;
                out.push(value);
                proof {
                    assert(value == merged_pixel(
                        tiles@,
                        tile_width as int,
                        tile_height as int,
                        max_columns as int,
                        layout,
                        x as int,
                        y as int,
                    ));
                    assert forall|x2: int, y2: int|
                        0 <= x2 < canvas_width && 0 <= y2 < y implies buffer_pixel(
                        out@,
                        canvas_width as int,
                        x2,
                        y2,
                    ) == merged_pixel(
                        tiles@,
                        tile_width as int,
                        tile_height as int,
                        max_columns as int,
                        layout,
                        x2,
                        y2,
                    ) by {
                        assert(y2 * canvas_width + x2 < y * canvas_width) by (nonlinear_arith)
                            requires
                                y2 + 1 <= y,
                                0 <= x2 < canvas_width,
                        ;
                        assert(out@[y2 * canvas_width + x2] == old_out[y2 * canvas_width + x2]);
                        assert(buffer_pixel(old_out, canvas_width as int, x2, y2) == merged_pixel(
                            tiles@,
                            tile_width as int,
                            tile_height as int,
                            max_columns as int,
                            layout,
                            x2,
                            y2,
                        ));
                    }
                    assert forall|x2: int| 0 <= x2 <= x implies buffer_pixel(
                        out@,
                        canvas_width as int,
                        x2,
                        y as int,
                    ) == merged_pixel(
                        tiles@,
                        tile_width as int,
                        tile_height as int,
                        max_columns as int,
                        layout,
                        x2,
                        y as int,
                    ) by {
                        if x2 < x {
                            assert(out@[y * canvas_width + x2] == old_out[y * canvas_width + x2]);
                            assert(buffer_pixel(old_out, canvas_width as int, x2, y as int)
                                == merged_pixel(
                                tiles@,
                                tile_width as int,
                                tile_height as int,
                                max_columns as int,
                                layout,
                                x2,
                                y as int,
                            ));
                        } else {
                            assert(out@[y * canvas_width + x] == value);
                        }
                    }
                }
                x = x + 1;
            }
            proof {
                assert(y * canvas_width + canvas_width == (y + 1) * canvas_width) by (nonlinear_arith);
            }
            y = y + 1;
        }
        proof {
            assert(out@.len() == canvas_height * canvas_width);
            assert(canvas_height * canvas_width == canvas_width * canvas_height) by (nonlinear_arith);
        }
        Ok((out, canvas_width, canvas_height))
    }

    /// Recolor an image directly to RGB: each pixel is replaced by the
    /// target palette's color in the slot of the first template color
    /// matching it within `tolerance`; unmatched pixels stay as they are.
    /// Also reports how many pixels matched and how many were skipped, for
    /// the caller's match-ratio diagnostics.
    pub fn color_image(
        palette: &Palette,
        template: &Palette,
        image: &PixelGrid,
        tolerance: u8,
    ) -> (r: (PixelGrid, usize, usize))
        requires
            image.wf(),
        ensures
            r.0.wf(),
            r.0.width == image.width,
            r.0.height == image.height,
            forall|j: int|
                0 <= j < image.pixels@.len() ==> r.0.pixels@[j] == recolored_pixel(
                    *palette,
                    *template,
                    image.pixels@[j],
                    tolerance,
                ),
            r.1 == matched_count(image.pixels@, *template, tolerance),
            r.1 + r.2 == image.pixels@.len(),
    {
        let mut pixels: Vec<Color> = Vec::new();
        let mut processed: usize = 0;
        let mut k: usize = 0;
        while k < image.pixels.len()
            invariant
                k <= image.pixels@.len(),
                pixels@.len() == k,
                processed <= k,
                processed == matched_count(
                    image.pixels@.subrange(0, k as int),
                    *template,
                    tolerance,
                ),
                forall|j: int|
                    0 <= j < k ==> pixels@[j] == recolored_pixel(
                        *palette,
                        *template,
                        image.pixels@[j],
                        tolerance,
                    ),
            decreases image.pixels@.len() - k,
        {
            let pixel = image.pixels[k];
            let ghost prefix = image.pixels@.subrange(0, k as int);
            match crate::color_matcher::find_slot(template, pixel, tolerance) {
                Some(slot) => {
                    proof {
                        lemma_first_color_match_characterization(
                            template.colors(),
                            pixel,
                            tolerance,
                        );
                    }
                    pixels.push(palette.color_at(slot));
                    processed = processed + 1;
                },
                None => {
                    pixels.push(pixel);
                },
            }
            proof {
                let extended = image.pixels@.subrange(0, k + 1);
                assert(extended.drop_last() =~= prefix);
                assert(extended.last() == image.pixels@[k as int]);
            }
            k = k + 1;
        }
        proof {
            assert(image.pixels@.subrange(0, image.pixels@.len() as int) =~= image.pixels@);
        }
        let skipped = k - processed;
        (PixelGrid { width: image.width, height: image.height, pixels }, processed, skipped)
    }

    /// Map every pixel of the image to a palette slot index: the buffer
    /// holds, row-major, the first output-palette slot matching the pixel
    /// within `tolerance`, or the sentinel 255 for an unmatched pixel.
    pub fn palettize_image(template: &Palette, image: &PixelGrid, tolerance: u8) -> (buf: Vec<u8>)
        requires
            image.wf(),
        ensures
            buf@.len() == image.pixels@.len(),
            forall|k: int|
                0 <= k < buf@.len() ==> buf@[k] == palettized_index(
                    *template,
                    image.pixels@[k],
                    tolerance,
                ),
    {
        let table = PngPalette::from_palette(template);
        let mut buf: Vec<u8> = Vec::new();
        let mut k: usize = 0;
        while k < image.pixels.len()
            invariant
                k <= image.pixels@.len(),
                buf@.len() == k,
                table.wf(),
                table.bytes() == output_palette_bytes(*template),
                forall|j: int|
                    0 <= j < k ==> buf@[j] == palettized_index(
                        *template,
                        image.pixels@[j],
                        tolerance,
                    ),
            decreases image.pixels@.len() - k,
        {
            let pixel = image.pixels[k];
            match table.index_of_with_tolerance(pixel, tolerance) {
                Some(slot) => {
                    proof {
                        crate::png_helper::lemma_first_match_characterization(
                            table.bytes(),
                            pixel,
                            tolerance,
                        );
                    }
                    buf.push(slot as u8);
                },
                None => {
                    buf.push(255);
                },
            }
            k = k + 1;
        }
        buf
    }
}

/// Whether `colors` already holds `color`.
fn contains_color(colors: &Vec<Color>, color: Color) -> (found: bool)
    ensures
        found == colors@.contains(color),
{
    let mut a: usize = 0;
    while a < colors.len()
        invariant
            a <= colors@.len(),
            forall|j: int| 0 <= j < a ==> colors@[j] != color,
        decreases colors@.len() - a,
    {
        if colors[a] == color {
            proof {
                assert(colors@[a as int] == color);
            }
            return true;
        }
        a = a + 1;
    }
    proof {
        if colors@.contains(color) {
            let w = choose|j: int| 0 <= j < colors@.len() && colors@[j] == color;
            assert(colors@[w] != color);
        }
    }
    false
}

} // verus!
