use analogue_pal_tool::palette::{Color, Palette};
use analogue_pal_tool::png_helper::PngPalette;

fn rgb(r: u8, g: u8, b: u8) -> Color {
    Color { r, g, b }
}

#[test]
fn new_is_all_white() {
    let pal = PngPalette::new();
    let bytes = pal.as_bytes();
    assert_eq!(bytes.len(), 256 * 3);
    assert!(bytes.iter().all(|&b| b == 255));
}

#[test]
fn default_matches_new() {
    let pal = PngPalette::default();
    assert_eq!(pal.as_bytes(), PngPalette::new().as_bytes());
}

#[test]
fn push_appends_at_cursor() {
    let mut pal = PngPalette::new();
    assert!(pal.push(rgb(1, 2, 3)));
    assert!(pal.push(rgb(4, 5, 6)));
    let bytes = pal.as_bytes();
    assert_eq!(&bytes[0..6], &[1, 2, 3, 4, 5, 6]);
    assert_eq!(bytes[6], 255);
}

#[test]
fn set_writes_one_slot_and_rejects_out_of_range() {
    let mut pal = PngPalette::new();
    assert!(pal.set(2, rgb(9, 8, 7)));
    assert_eq!(&pal.as_bytes()[6..9], &[9, 8, 7]);
    let before = pal.as_bytes().clone();
    assert!(!pal.set(256, rgb(1, 1, 1)));
    assert_eq!(pal.as_bytes(), &before);
}

#[test]
fn push_stops_when_full() {
    let mut pal = PngPalette::new();
    for i in 0..256 {
        assert!(pal.push(rgb(i as u8, 0, 0)));
    }
    assert!(!pal.push(rgb(1, 2, 3)));
}

#[test]
fn index_of_finds_first_exact_slot() {
    let mut pal = PngPalette::new();
    pal.push(rgb(10, 20, 30));
    pal.push(rgb(40, 50, 60));
    pal.push(rgb(40, 50, 60));
    assert_eq!(pal.index_of(rgb(40, 50, 60)), Some(1));
    assert_eq!(pal.index_of(rgb(10, 20, 30)), Some(0));
    assert_eq!(pal.index_of(rgb(255, 255, 255)), Some(3));
    assert_eq!(pal.index_of(rgb(1, 1, 1)), None);
}

#[test]
fn from_palette_fills_first_17_slots() {
    let template = Palette::default();
    let pal = PngPalette::from_palette(&template);
    let bytes = pal.as_bytes();
    for i in 0..17 {
        let c = template.color_at(i);
        assert_eq!(&bytes[3 * i..3 * i + 3], &[c.r, c.g, c.b], "slot {}", i);
    }
    assert!(bytes[51..].iter().all(|&b| b == 255));
}

#[test]
fn from_palette_cursor_starts_at_slot_zero() {
    let mut pal = PngPalette::from_palette(&Palette::default());
    assert!(pal.push(rgb(7, 7, 7)));
    assert_eq!(&pal.as_bytes()[0..3], &[7, 7, 7]);
}

#[test]
fn tolerance_zero_is_exact_lookup() {
    let pal = PngPalette::from_palette(&Palette::default());
    assert_eq!(pal.index_of_with_tolerance(rgb(32, 32, 32), 0), Some(1));
    assert_eq!(pal.index_of_with_tolerance(rgb(33, 32, 32), 0), None);
}

#[test]
fn tolerance_window_matches_nearby_pixel() {
    let pal = PngPalette::from_palette(&Palette::default());
    // (36, 36, 36) is within 8 of bg_1 = (32, 32, 32) but not of bg_0.
    assert_eq!(pal.index_of_with_tolerance(rgb(36, 36, 36), 8), Some(1));
    // (9, 9, 9) differs by tolerance + 1 from bg_0 and by more from the rest.
    assert_eq!(pal.index_of_with_tolerance(rgb(9, 9, 9), 8), None);
}

#[test]
fn tolerance_window_saturates_at_channel_bounds() {
    let pal = PngPalette::from_palette(&Palette::default());
    // Near-white falls through the 17 template slots onto the first padding
    // slot, which holds white.
    assert_eq!(pal.index_of_with_tolerance(rgb(250, 250, 250), 10), Some(17));
    // Tolerance wide enough to reach everything matches slot 0 first.
    assert_eq!(pal.index_of_with_tolerance(rgb(200, 100, 50), 255), Some(0));
}

#[test]
fn lcd_off_pixel_maps_to_slot_16() {
    let pal = PngPalette::from_palette(&Palette::default());
    assert_eq!(pal.index_of_with_tolerance(rgb(255, 0, 255), 8), Some(16));
}
