use analogue_pal_tool::image_handler::{
    ImageHandler, MergeLayout, PixelGrid, ALMOST_ALL_COLORS, TEMPLATE_TOLERANCE,
};
use analogue_pal_tool::palette::{Color, Error, Palette};

fn rgb(r: u8, g: u8, b: u8) -> Color {
    Color { r, g, b }
}

fn grid(width: usize, height: usize, pixels: Vec<Color>) -> PixelGrid {
    assert_eq!(pixels.len(), width * height);
    PixelGrid { width, height, pixels }
}

#[test]
fn constants_match_the_template() {
    assert_eq!(ALMOST_ALL_COLORS, 16);
    assert_eq!(TEMPLATE_TOLERANCE, 8);
}

#[test]
fn find_unique_colors_drops_duplicates() {
    let g = grid(
        3,
        2,
        vec![
            rgb(1, 1, 1),
            rgb(2, 2, 2),
            rgb(1, 1, 1),
            rgb(3, 3, 3),
            rgb(2, 2, 2),
            rgb(1, 1, 1),
        ],
    );
    let unique = ImageHandler::find_unique_colors(&g);
    assert_eq!(unique.len(), 3);
    assert!(unique.contains(&rgb(1, 1, 1)));
    assert!(unique.contains(&rgb(2, 2, 2)));
    assert!(unique.contains(&rgb(3, 3, 3)));
}

#[test]
fn find_unique_colors_of_empty_image() {
    let g = grid(0, 0, Vec::new());
    assert!(ImageHandler::find_unique_colors(&g).is_empty());
}

#[test]
fn full_coverage_reports_no_warning() {
    // One pixel for each of the 16 matchable template colors.
    let template = Palette::default();
    let mut pixels = Vec::new();
    for i in 0..16 {
        pixels.push(template.color_at(i));
    }
    let g = grid(4, 4, pixels);
    let distinct = ImageHandler::find_unique_colors(&g).len();
    assert_eq!(distinct, 16);
    assert_eq!(ImageHandler::coverage_percent(distinct), 100);
    assert!(ImageHandler::full_coverage(distinct));
}

#[test]
fn half_coverage_reports_fifty_percent_warning() {
    let template = Palette::default();
    let mut pixels = Vec::new();
    for i in 0..8 {
        pixels.push(template.color_at(i));
    }
    let g = grid(4, 2, pixels);
    let distinct = ImageHandler::find_unique_colors(&g).len();
    assert_eq!(distinct, 8);
    assert_eq!(ImageHandler::coverage_percent(distinct), 50);
    assert!(!ImageHandler::full_coverage(distinct));
}

#[test]
fn palettize_maps_pixels_to_slot_indices() {
    let template = Palette::default();
    let g = grid(
        2,
        2,
        vec![
            rgb(0, 0, 0),       // bg_0 -> 0
            rgb(0, 255, 0),     // obj0_0 -> 4
            rgb(255, 0, 255),   // lcd_off -> 16
            rgb(10, 99, 7),     // matches nothing -> sentinel
        ],
    );
    let buf = ImageHandler::palettize_image(&template, &g, TEMPLATE_TOLERANCE);
    assert_eq!(buf, vec![0, 4, 16, 255]);
}

#[test]
fn palettize_respects_tolerance() {
    let template = Palette::default();
    let g = grid(2, 1, vec![rgb(36, 36, 36), rgb(41, 41, 41)]);
    let buf = ImageHandler::palettize_image(&template, &g, 8);
    // (36, 36, 36) is within 8 of bg_1; (41, 41, 41) is 9 away from it and
    // further from everything else.
    assert_eq!(buf, vec![1, 255]);
}

#[test]
fn scale_by_one_is_identity() {
    let buf = vec![1, 2, 3, 4, 5, 6];
    let (out, w, h) = ImageHandler::scale(&buf, 3, 2, 1).unwrap();
    assert_eq!(out, buf);
    assert_eq!((w, h), (3, 2));
}

#[test]
fn scale_replicates_blocks() {
    let buf = vec![1, 2, 3, 4];
    let (out, w, h) = ImageHandler::scale(&buf, 2, 2, 3).unwrap();
    assert_eq!((w, h), (6, 6));
    assert_eq!(out.len(), 36);
    for y in 0..6 {
        for x in 0..6 {
            let expected = buf[(y / 3) * 2 + x / 3];
            assert_eq!(out[y * 6 + x], expected, "pixel ({}, {})", x, y);
        }
    }
    // Spot-check the four quadrant corners.
    assert_eq!(out[0], 1);
    assert_eq!(out[5], 2);
    assert_eq!(out[30], 3);
    assert_eq!(out[35], 4);
}

#[test]
fn scale_rejects_zero_and_oversized_factors() {
    let buf = vec![0; 4];
    assert_eq!(
        ImageHandler::scale(&buf, 2, 2, 0).unwrap_err(),
        Error::InvalidScaleFactor(0)
    );
    assert_eq!(
        ImageHandler::scale(&buf, 2, 2, 21).unwrap_err(),
        Error::InvalidScaleFactor(21)
    );
    assert!(ImageHandler::scale(&buf, 2, 2, 20).is_ok());
}

#[test]
fn merge_three_tiles_in_two_columns() {
    let tiles = vec![vec![1u8; 16], vec![2u8; 16], vec![3u8; 16]];
    let (out, w, h) =
        ImageHandler::merge(&tiles, 4, 4, 2, MergeLayout::Horizontal).unwrap();
    assert_eq!((w, h), (8, 8));
    for y in 0..8 {
        for x in 0..8 {
            let expected = match (x < 4, y < 4) {
                (true, true) => 1,
                (false, true) => 2,
                (true, false) => 3,
                (false, false) => 255,
            };
            assert_eq!(out[y * 8 + x], expected, "pixel ({}, {})", x, y);
        }
    }
}

#[test]
fn merge_copies_tile_contents_verbatim() {
    let tile0 = (0u8..16).collect::<Vec<u8>>();
    let tile1 = (100u8..116).collect::<Vec<u8>>();
    let tiles = vec![tile0.clone(), tile1.clone()];
    let (out, w, h) =
        ImageHandler::merge(&tiles, 4, 4, 2, MergeLayout::Horizontal).unwrap();
    assert_eq!((w, h), (8, 4));
    for y in 0..4 {
        for x in 0..4 {
            assert_eq!(out[y * 8 + x], tile0[y * 4 + x]);
            assert_eq!(out[y * 8 + x + 4], tile1[y * 4 + x]);
        }
    }
}

#[test]
fn merge_vertical_fills_column_major() {
    let tiles = vec![vec![10u8], vec![20u8], vec![30u8]];
    let (out, w, h) = ImageHandler::merge(&tiles, 1, 1, 2, MergeLayout::Vertical).unwrap();
    assert_eq!((w, h), (2, 2));
    // Tiles run top-to-bottom first: tile 0 and 1 fill the left column,
    // tile 2 starts the right one; the last cell stays background.
    assert_eq!(out, vec![10, 30, 20, 255]);
}

#[test]
fn merge_rejects_mismatched_tile_sizes() {
    let tiles = vec![vec![1u8; 16], vec![2u8; 15]];
    assert_eq!(
        ImageHandler::merge(&tiles, 4, 4, 2, MergeLayout::Horizontal).unwrap_err(),
        Error::MismatchedTileDimensions
    );
}

#[test]
fn merge_of_no_tiles_is_empty() {
    let tiles: Vec<Vec<u8>> = Vec::new();
    let (out, w, h) = ImageHandler::merge(&tiles, 4, 4, 2, MergeLayout::Horizontal).unwrap();
    assert_eq!((w, h), (8, 0));
    assert!(out.is_empty());
}

#[test]
fn default_merge_layout_is_horizontal() {
    assert_eq!(MergeLayout::default(), MergeLayout::Horizontal);
}

#[test]
fn color_image_recolors_matched_pixels_only() {
    let template = Palette::default();
    // A target palette with easily recognizable colors.
    let palette = Palette {
        bg: [rgb(201, 0, 0), rgb(202, 0, 0), rgb(203, 0, 0), rgb(204, 0, 0)],
        obj0: [rgb(205, 0, 0), rgb(206, 0, 0), rgb(207, 0, 0), rgb(208, 0, 0)],
        obj1: [rgb(209, 0, 0), rgb(210, 0, 0), rgb(211, 0, 0), rgb(212, 0, 0)],
        window: [rgb(213, 0, 0), rgb(214, 0, 0), rgb(215, 0, 0), rgb(216, 0, 0)],
        lcd_off: rgb(217, 0, 0),
    };
    let g = grid(
        3,
        1,
        vec![
            rgb(32, 32, 32),  // bg_1 exactly
            rgb(10, 99, 7),   // unmatched, stays as it is
            rgb(255, 0, 255), // lcd_off exactly
        ],
    );
    let (out, processed, skipped) = ImageHandler::color_image(&palette, &template, &g, 8);
    assert_eq!((out.width, out.height), (3, 1));
    assert_eq!(out.pixels, vec![rgb(202, 0, 0), rgb(10, 99, 7), rgb(217, 0, 0)]);
    assert_eq!(processed, 2);
    assert_eq!(skipped, 1);
}
