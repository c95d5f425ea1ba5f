use analogue_pal_tool::palette::{AsAnsiType, Color, Error, Palette};
use analogue_pal_tool::palette::slot_name;

fn rgb(r: u8, g: u8, b: u8) -> Color {
    Color { r, g, b }
}

const SIGNATURE: [u8; 5] = [0x81, 0x41, 0x50, 0x47, 0x42];

#[test]
fn default_template_has_expected_colors() {
    let p = Palette::default();
    assert_eq!(p.bg[0], rgb(0, 0, 0));
    assert_eq!(p.bg[3], rgb(128, 128, 128));
    assert_eq!(p.obj0[0], rgb(0, 255, 0));
    assert_eq!(p.obj1[2], rgb(64, 64, 255));
    assert_eq!(p.window[1], rgb(255, 32, 32));
    assert_eq!(p.lcd_off, rgb(255, 0, 255));
}

#[test]
fn default_template_colors_are_distinct() {
    let p = Palette::default();
    let mut all: Vec<Color> = Vec::new();
    for i in 0..17 {
        all.push(p.color_at(i));
    }
    for i in 0..17 {
        for j in 0..i {
            assert_ne!(all[i], all[j], "slots {} and {} collide", i, j);
        }
    }
}

#[test]
fn encode_is_56_bytes_with_signature() {
    let data = Palette::default().encode();
    assert_eq!(data.len(), 56);
    assert_eq!(&data[51..56], &SIGNATURE);
}

#[test]
fn encode_lays_out_groups_at_fixed_offsets() {
    let p = Palette::default();
    let data = p.encode();
    // bg at 0, obj0 at 12, obj1 at 24, window at 36, lcd_off at 48
    assert_eq!(&data[0..3], &[0, 0, 0]);
    assert_eq!(&data[12..15], &[0, 255, 0]);
    assert_eq!(&data[24..27], &[0, 0, 255]);
    assert_eq!(&data[36..39], &[255, 0, 0]);
    assert_eq!(&data[48..51], &[255, 0, 255]);
}

#[test]
fn encode_decode_round_trip() {
    let p = Palette::default();
    let encoded = p.encode();
    let decoded = Palette::decode(&encoded).unwrap();
    assert_eq!(decoded.encode(), encoded);
}

#[test]
fn round_trip_of_arbitrary_palette() {
    let p = Palette {
        bg: [rgb(1, 2, 3), rgb(4, 5, 6), rgb(7, 8, 9), rgb(10, 11, 12)],
        obj0: [rgb(13, 14, 15), rgb(16, 17, 18), rgb(19, 20, 21), rgb(22, 23, 24)],
        obj1: [rgb(25, 26, 27), rgb(28, 29, 30), rgb(31, 32, 33), rgb(34, 35, 36)],
        window: [rgb(37, 38, 39), rgb(40, 41, 42), rgb(43, 44, 45), rgb(46, 47, 48)],
        lcd_off: rgb(49, 50, 51),
    };
    let encoded = p.encode();
    let decoded = Palette::decode(&encoded).unwrap();
    assert_eq!(decoded.bg, p.bg);
    assert_eq!(decoded.obj0, p.obj0);
    assert_eq!(decoded.obj1, p.obj1);
    assert_eq!(decoded.window, p.window);
    assert_eq!(decoded.lcd_off, p.lcd_off);
    assert_eq!(decoded.encode(), encoded);
}

#[test]
fn decode_rejects_every_wrong_size() {
    for len in (0..=55).chain([57, 100]) {
        let data = vec![0u8; len];
        let err = Palette::decode(&data).unwrap_err();
        assert_eq!(err, Error::InvalidSize(len));
    }
}

#[test]
fn decode_rejects_corrupt_footer() {
    let good = Palette::default().encode();
    for pos in 51..56 {
        let mut data = good.clone();
        data[pos] = data[pos].wrapping_add(1);
        let err = Palette::decode(&data).unwrap_err();
        assert_eq!(err, Error::IncorrectFooter);
    }
    let mut all_zero = good.clone();
    for pos in 51..56 {
        all_zero[pos] = 0;
    }
    assert_eq!(Palette::decode(&all_zero).unwrap_err(), Error::IncorrectFooter);
}

#[test]
fn decode_reads_colors_from_fixed_offsets() {
    let mut data = vec![0u8; 56];
    for (i, byte) in data.iter_mut().enumerate().take(51) {
        *byte = i as u8;
    }
    data[51..56].copy_from_slice(&SIGNATURE);
    let p = Palette::decode(&data).unwrap();
    assert_eq!(p.bg[0], rgb(0, 1, 2));
    assert_eq!(p.obj0[1], rgb(15, 16, 17));
    assert_eq!(p.obj1[3], rgb(33, 34, 35));
    assert_eq!(p.window[0], rgb(36, 37, 38));
    assert_eq!(p.lcd_off, rgb(48, 49, 50));
}

#[test]
fn template_serialization_end_to_end() {
    let bytes = Palette::default().encode();
    let p = Palette::decode(&bytes).unwrap();
    assert_eq!(p.bg[0], rgb(0, 0, 0));
    assert_eq!(p.lcd_off, rgb(255, 0, 255));
}

#[test]
fn slot_names_follow_declaration_order() {
    assert_eq!(slot_name(0), "bg_0");
    assert_eq!(slot_name(3), "bg_3");
    assert_eq!(slot_name(4), "obj0_0");
    assert_eq!(slot_name(8), "obj1_0");
    assert_eq!(slot_name(12), "window_0");
    assert_eq!(slot_name(15), "window_3");
    assert_eq!(slot_name(16), "lcd_off");
}

#[test]
fn contrast_color_picks_visible_text_color() {
    assert_eq!(rgb(0, 0, 0).contrast_color(), rgb(255, 255, 255));
    assert_eq!(rgb(255, 255, 255).contrast_color(), rgb(0, 0, 0));
    assert_eq!(rgb(32, 32, 32).contrast_color(), rgb(255, 255, 255));
    assert_eq!(rgb(255, 128, 128).contrast_color(), rgb(0, 0, 0));
}

#[test]
fn ansi_text_just_color() {
    let s = rgb(1, 2, 3).as_ansi_text(AsAnsiType::JustColor, None);
    assert_eq!(s, "  ");
}

#[test]
fn ansi_text_with_label() {
    let s = rgb(1, 2, 3).as_ansi_text(AsAnsiType::ColorNumber, Some("3"));
    assert_eq!(s, "  3  ");
}

#[test]
fn ansi_text_decimal_is_padded_to_constant_width() {
    let s = rgb(5, 64, 200).as_ansi_text(AsAnsiType::ColorValueDec, None);
    assert_eq!(s, "  [5, 64, 200]     ");
    let t = rgb(100, 100, 100).as_ansi_text(AsAnsiType::ColorValueDec, None);
    assert_eq!(t, "  [100, 100, 100]  ");
}

#[test]
fn ansi_text_hex() {
    let s = rgb(0, 255, 16).as_ansi_text(AsAnsiType::ColorValueHex, None);
    assert_eq!(s, "  #00ff10  ");
    let t = rgb(171, 205, 239).as_ansi_text(AsAnsiType::ColorValueHex, None);
    assert_eq!(t, "  #abcdef  ");
}

#[test]
fn default_display_type_is_hex() {
    assert_eq!(AsAnsiType::default(), AsAnsiType::ColorValueHex);
}
