//! The 17-color palette and its fixed 56-byte binary form.
//!
//! A palette holds five named slot groups — `bg`, `obj0`, `obj1`, `window`
//! (four colors each) and the single `lcd_off` color — 51 bytes of color
//! data followed by a fixed 5-byte signature, 56 bytes in all.

use vstd::prelude::*;

verus! {

broadcast use vstd::array::group_array_axioms;

/// One RGB color, one byte per channel.
#[derive(Clone, Copy, Debug, PartialEq, Eq, Structural, Hash)]
pub struct Color {
    pub r: u8,
    pub g: u8,
    pub b: u8,
}

/// A brightness ramp of four colors, index 0 being the darkest.
pub type Colors = [Color; 4];

/// Everything that can go wrong inside the palette engine.
///
/// I/O failures are not represented here: reading and writing files is the
/// caller's business, the engine only ever sees in-memory buffers.
#[derive(Clone, Copy, Debug, PartialEq, Eq, Structural)]
pub enum Error {
    /// Palette data must be exactly 56 bytes long; carries the actual length.
    InvalidSize(usize),
    /// The last 5 bytes of the palette data are not the fixed signature.
    IncorrectFooter,
    /// A scale factor outside `1..=20`; carries the offending factor.
    InvalidScaleFactor(u8),
    /// A tile handed to a merge does not have the dimensions announced for it.
    MismatchedTileDimensions,
}

/// A full palette: 4 + 4 + 4 + 4 + 1 = 17 colors.
#[derive(Clone, Copy, Debug)]
pub struct Palette {
    pub bg: Colors,
    pub obj0: Colors,
    pub obj1: Colors,
    pub window: Colors,
    pub lcd_off: Color,
}

/// The fixed signature closing every encoded palette.
pub open spec fn signature() -> Seq<u8> {
    seq![0x81u8, 0x41u8, 0x50u8, 0x47u8, 0x42u8]
}

/// One channel of a color, by channel number 0 (red), 1 (green), 2 (blue).
pub open spec fn channel(c: Color, j: int) -> u8 {
    if j == 0 {
        c.r
    } else if j == 1 {
        c.g
    } else {
        c.b
    }
}

/// A 56-byte buffer ends with the fixed signature.
pub open spec fn footer_ok(s: Seq<u8>) -> bool {
    &&& s[51] == 0x81u8
    &&& s[52] == 0x41u8
    &&& s[53] == 0x50u8
    &&& s[54] == 0x47u8
    &&& s[55] == 0x42u8
}

/// The 17 colors a valid 56-byte buffer carries, in declaration order,
/// or `None` when the buffer is not a valid encoded palette.
pub open spec fn decoded_colors(s: Seq<u8>) -> Option<Seq<Color>> {
    if s.len() == 56 && footer_ok(s) {
        Some(Seq::new(17, |i: int| (Color { r: s[3 * i], g: s[3 * i + 1], b: s[3 * i + 2] })))
    } else {
        None
    }
}

impl Palette {
    /// All 17 colors in declaration order:
    /// `bg`, `obj0`, `obj1`, `window`, `lcd_off`.
    pub open spec fn colors(self) -> Seq<Color> {
        self.bg@ + self.obj0@ + self.obj1@ + self.window@ + seq![self.lcd_off]
    }

    /// Byte `i` of the encoded form: the colors byte by byte, then the
    /// signature at offset 51.
    pub open spec fn byte_at(self, i: int) -> u8 {
        if i < 51 {
            channel(self.colors()[i / 3], i % 3)
        } else {
            signature()[i - 51]
        }
    }

    /// The full 56-byte encoded form.
    pub open spec fn encoded(self) -> Seq<u8> {
        Seq::new(56, |i: int| self.byte_at(i))
    }

    /// The color of slot `index` in declaration order.
    pub fn color_at(&self, index: usize) -> (c: Color)
        requires
            index < 17,
        ensures
            c == self.colors()[index as int],
    {
        if index < 4 {
            self.bg[index]
        } else if index < 8 {
            self.obj0[index - 4]
        } else if index < 12 {
            self.obj1[index - 8]
        } else if index < 16 {
            self.window[index - 12]
        } else {
            self.lcd_off
        }
    }

    /// Serialize the palette into its 56-byte form.  The signature is always
    /// appended, whatever the colors are; encoding never fails.
    pub fn encode(&self) -> (data: Vec<u8>)
        ensures
            data@ == self.encoded(),
    {
        let mut data: Vec<u8> = Vec::new();
        let mut slot: usize = 0;
        while slot < 17
            invariant
                slot <= 17,
                data@.len() == 3 * slot,
                forall|s: int, t: int|
                    0 <= s < slot && 0 <= t < 3 ==> data@[3 * s + t] == channel(
                        self.colors()[s],
                        t,
                    ),
            decreases 17 - slot,
        {
            let c = self.color_at(slot);
            data.push(c.r);
            data.push(c.g);
            data.push(c.b);
            slot = slot + 1;
        }
        data.push(0x81);
        data.push(0x41);
        data.push(0x50);
        data.push(0x47);
        data.push(0x42);
        proof {
            assert forall|i: int| 0 <= i < 56 implies data@[i] == self.byte_at(i) by {
                if i < 51 {
                    let s = i / 3;
                    let t = i % 3;
                    vstd::arithmetic::div_mod::lemma_fundamental_div_mod(i, 3);
                    assert(data@[3 * s + t] == channel(self.colors()[s], t));
                }
            }
            assert(data@ =~= self.encoded());
        }
        data
    }
    /// Parse a 56-byte buffer back into a palette.
    ///
    /// Fails with `InvalidSize` on any other length and with
    /// `IncorrectFooter` when the last 5 bytes are not the signature;
    /// a corrupt signature is a hard failure, never silently accepted.
    pub fn decode(data: &Vec<u8>) -> (result: Result<Palette, Error>)
        ensures
            result is Ok <==> decoded_colors(data@) is Some,
            result matches Ok(p) ==> p.colors() == decoded_colors(data@)->Some_0,
            result matches Ok(p) ==> p.encoded() == data@,
            data@.len() != 56 <==> result == Err::<Palette, Error>(
                Error::InvalidSize(data@.len() as usize),
            ),
            data@.len() == 56 && !footer_ok(data@) <==> result == Err::<Palette, Error>(
                Error::IncorrectFooter,
            ),
    {
        if data.len() != 56 {
            return Err(Error::InvalidSize(data.len()));
        }
        if !(data[51] == 0x81 && data[52] == 0x41 && data[53] == 0x50 && data[54] == 0x47
            && data[55] == 0x42) {
            return Err(Error::IncorrectFooter);
        }
        let p = Palette {
            bg: [
                read_color(data, 0),
                read_color(data, 3),
                read_color(data, 6),
                read_color(data, 9),
            ],
            obj0: [
                read_color(data, 12),
                read_color(data, 15),
                read_color(data, 18),
                read_color(data, 21),
            ],
            obj1: [
                read_color(data, 24),
                read_color(data, 27),
                read_color(data, 30),
                read_color(data, 33),
            ],
            window: [
                read_color(data, 36),
                read_color(data, 39),
                read_color(data, 42),
                read_color(data, 45),
            ],
            lcd_off: read_color(data, 48),
        };
        proof {
            let decoded = decoded_colors(data@)->Some_0;
            assert forall|i: int| 0 <= i < 17 implies p.colors()[i] == decoded[i] by {}
            assert(p.colors() =~= decoded);
            assert forall|i: int| 0 <= i < 56 implies p.byte_at(i) == data@[i] by {
                if i < 51 {
                    vstd::arithmetic::div_mod::lemma_fundamental_div_mod(i, 3);
                    assert(p.colors()[i / 3] == decoded[i / 3]);
                }
            }
            assert(p.encoded() =~= data@);
        }
        Ok(p)
    }
}

/// The color stored at byte offset `off`.
fn read_color(data: &Vec<u8>, off: usize) -> (c: Color)
    requires
        off + 3 <= 56,
        data@.len() == 56,
    ensures
        c.r == data@[off as int],
        c.g == data@[off as int + 1],
        c.b == data@[off as int + 2],
{
    Color { r: data[off], g: data[off + 1], b: data[off + 2] }
}

/// The colors of the built-in template palette, in declaration order.
///
/// Every slot carries a distinct color: reverse matching from a color back
/// to its slot relies on that, since two identical template colors would
/// make the match ambiguous.
pub open spec fn template_colors() -> Seq<Color> {
    seq![
        (Color { r: 0, g: 0, b: 0 }),
        (Color { r: 32, g: 32, b: 32 }),
        (Color { r: 64, g: 64, b: 64 }),
        (Color { r: 128, g: 128, b: 128 }),
        (Color { r: 0, g: 255, b: 0 }),
        (Color { r: 32, g: 255, b: 32 }),
        (Color { r: 64, g: 255, b: 64 }),
        (Color { r: 128, g: 255, b: 128 }),
        (Color { r: 0, g: 0, b: 255 }),
        (Color { r: 32, g: 32, b: 255 }),
        (Color { r: 64, g: 64, b: 255 }),
        (Color { r: 128, g: 128, b: 255 }),
        (Color { r: 255, g: 0, b: 0 }),
        (Color { r: 255, g: 32, b: 32 }),
        (Color { r: 255, g: 64, b: 64 }),
        (Color { r: 255, g: 128, b: 128 }),
        (Color { r: 255, g: 0, b: 255 }),
    ]
}

impl Default for Palette {
    /// The built-in template palette used as the matching reference.
    fn default() -> (p: Palette)
        ensures
            p.colors() == template_colors(),
    {
        let p = Palette {
            bg: [
                Color { r: 0, g: 0, b: 0 },
                Color { r: 32, g: 32, b: 32 },
                Color { r: 64, g: 64, b: 64 },
                Color { r: 128, g: 128, b: 128 },
            ],
            obj0: [
                Color { r: 0, g: 255, b: 0 },
                Color { r: 32, g: 255, b: 32 },
                Color { r: 64, g: 255, b: 64 },
                Color { r: 128, g: 255, b: 128 },
            ],
            obj1: [
                Color { r: 0, g: 0, b: 255 },
                Color { r: 32, g: 32, b: 255 },
                Color { r: 64, g: 64, b: 255 },
                Color { r: 128, g: 128, b: 255 },
            ],
            window: [
                Color { r: 255, g: 0, b: 0 },
                Color { r: 255, g: 32, b: 32 },
                Color { r: 255, g: 64, b: 64 },
                Color { r: 255, g: 128, b: 128 },
            ],
            lcd_off: Color { r: 255, g: 0, b: 255 },
        };
        proof {
            assert(p.colors() =~= template_colors());
        }
        p
    }
}

/// Two palettes with the same 17 colors are the same palette.
pub proof fn lemma_colors_injective(p: Palette, q: Palette)
    requires
        p.colors() == q.colors(),
    ensures
        p == q,
{
    assert forall|i: int| 0 <= i < 4 implies p.bg@[i] == q.bg@[i] by {
        assert(p.colors()[i] == p.bg@[i]);
        assert(q.colors()[i] == q.bg@[i]);
    }
    assert forall|i: int| 0 <= i < 4 implies p.obj0@[i] == q.obj0@[i] by {
        assert(p.colors()[4 + i] == p.obj0@[i]);
        assert(q.colors()[4 + i] == q.obj0@[i]);
    }
    assert forall|i: int| 0 <= i < 4 implies p.obj1@[i] == q.obj1@[i] by {
        assert(p.colors()[8 + i] == p.obj1@[i]);
        assert(q.colors()[8 + i] == q.obj1@[i]);
    }
    assert forall|i: int| 0 <= i < 4 implies p.window@[i] == q.window@[i] by {
        assert(p.colors()[12 + i] == p.window@[i]);
        assert(q.colors()[12 + i] == q.window@[i]);
    }
    assert(p.colors()[16] == p.lcd_off);
    assert(q.colors()[16] == q.lcd_off);
    assert(p.bg =~= q.bg);
    assert(p.obj0 =~= q.obj0);
    assert(p.obj1 =~= q.obj1);
    assert(p.window =~= q.window);
}

/// Round trip: the encoded form of any palette, valid or not, decodes back
/// to exactly the palette's 17 colors.  In particular
/// `encode(decode(encode(p))) == encode(p)` for every palette `p`.
pub proof fn lemma_encode_decode_round_trip(p: Palette)
    ensures
        decoded_colors(p.encoded()) == Some(p.colors()),
{
    let e = p.encoded();
    assert(e.len() == 56);
    assert(footer_ok(e));
    let d = decoded_colors(e)->Some_0;
    assert forall|i: int| 0 <= i < 17 implies d[i] == p.colors()[i] by {
        assert(e[3 * i] == p.byte_at(3 * i));
        assert(e[3 * i + 1] == p.byte_at(3 * i + 1));
        assert(e[3 * i + 2] == p.byte_at(3 * i + 2));
        assert((3 * i) / 3 == i && (3 * i) % 3 == 0) by (nonlinear_arith);
        assert((3 * i + 1) / 3 == i && (3 * i + 1) % 3 == 1) by (nonlinear_arith);
        assert((3 * i + 2) / 3 == i && (3 * i + 2) % 3 == 2) by (nonlinear_arith);
    }
    assert(d =~= p.colors());
}

/// The rendering modes for showing a color as text in a terminal.
#[derive(Clone, Copy, Debug, PartialEq, Eq, Structural)]
pub enum AsAnsiType {
    JustColor,
    ColorNumber,
    ColorValueDec,
    ColorValueHex,
}

impl Default for AsAnsiType {
    /// Colors are shown as hex values by default.
    fn default() -> (t: AsAnsiType)
        ensures
            t == AsAnsiType::ColorValueHex,
    {
        AsAnsiType::ColorValueHex
    }
}

/// The color's luma in thousandths of a channel unit, with the usual
/// perceptual channel weights (299, 586 and 114 thousandths for red,
/// green and blue).
pub open spec fn luma_thousandths(c: Color) -> int {
    299 * c.r + 586 * c.g + 114 * c.b
}

/// Black for a bright color, white for a dark one: whichever text color
/// is better visible on a background of `c`.  The threshold is a luma of
/// one half, that is 127500 thousandths.
pub open spec fn contrast_color_spec(c: Color) -> Color {
    if luma_thousandths(c) > 127500 {
        Color { r: 0, g: 0, b: 0 }
    } else {
        Color { r: 255, g: 255, b: 255 }
    }
}

/// The character for the digit value `d`, `0` through `f`.
pub open spec fn digit_char(d: int) -> char {
    if d == 0 {
        '0'
    } else if d == 1 {
        '1'
    } else if d == 2 {
        '2'
    } else if d == 3 {
        '3'
    } else if d == 4 {
        '4'
    } else if d == 5 {
        '5'
    } else if d == 6 {
        '6'
    } else if d == 7 {
        '7'
    } else if d == 8 {
        '8'
    } else if d == 9 {
        '9'
    } else if d == 10 {
        'a'
    } else if d == 11 {
        'b'
    } else if d == 12 {
        'c'
    } else if d == 13 {
        'd'
    } else if d == 14 {
        'e'
    } else {
        'f'
    }
}

/// A channel value as exactly two lower-case hex digits.
pub open spec fn hex_chars(n: u8) -> Seq<char> {
    seq![digit_char(n as int / 16), digit_char(n as int % 16)]
}

/// A channel value in decimal, without leading zeros: one to three digits.
pub open spec fn dec_chars(n: u8) -> Seq<char> {
    if n >= 100 {
        seq![digit_char(n as int / 100), digit_char((n as int / 10) % 10), digit_char(n as int % 10)]
    } else if n >= 10 {
        seq![digit_char((n as int / 10) % 10), digit_char(n as int % 10)]
    } else {
        seq![digit_char(n as int)]
    }
}

/// The spaces that pad a decimal channel value to a constant width of
/// three characters.
pub open spec fn dec_padding(n: u8) -> Seq<char> {
    if n >= 100 {
        Seq::<char>::empty()
    } else if n >= 10 {
        seq![' ']
    } else {
        seq![' ', ' ']
    }
}

/// The text shown for a color in the given rendering mode, before any
/// terminal coloring is applied around it: two spaces for the plain
/// swatch, the label between spaces for the numbered mode, the bracketed
/// decimal triple padded to constant width, or the hex form.
pub open spec fn ansi_text(c: Color, display_type: AsAnsiType, label: Option<Seq<char>>) -> Seq<
    char,
> {
    match display_type {
        AsAnsiType::JustColor => "  "@,
        AsAnsiType::ColorNumber => "  "@ + label->Some_0 + "  "@,
        AsAnsiType::ColorValueDec => "  ["@ + dec_chars(c.r) + ", "@ + dec_chars(c.g) + ", "@
            + dec_chars(c.b) + "]  "@ + dec_padding(c.r) + dec_padding(c.g) + dec_padding(c.b),
        AsAnsiType::ColorValueHex => "  #"@ + hex_chars(c.r) + hex_chars(c.g) + hex_chars(c.b)
            + "  "@,
    }
}

impl Color {
    /// Black or white, whichever will be better visible on a background
    /// of this color.
    pub fn contrast_color(&self) -> (c: Color)
        ensures
            c == contrast_color_spec(*self),
    {
        let luma: u32 = 299 * (self.r as u32) + 586 * (self.g as u32) + 114 * (self.b as u32);
        if luma > 127500 {
            Color { r: 0, g: 0, b: 0 }
        } else {
            Color { r: 255, g: 255, b: 255 }
        }
    }

    /// The text for this color in the given rendering mode; the caller
    /// wraps it in terminal colors.  The numbered mode needs its label.
    pub fn as_ansi_text(&self, display_type: AsAnsiType, text: Option<&str>) -> (out: String)
        requires
            display_type == AsAnsiType::ColorNumber ==> text is Some,
        ensures
            out@ == ansi_text(
                *self,
                display_type,
                match text {
                    Some(t) => Some(t@),
                    None => None,
                },
            ),
    {
        match display_type {
            AsAnsiType::JustColor => String::from_str("  "),
            AsAnsiType::ColorNumber => {
                let mut out = String::from_str("  ");
                out.append(text.unwrap());
                out.append("  ");
                proof {
                    assert(out@ =~= ansi_text(
                        *self,
                        display_type,
                        Some(text->Some_0@),
                    ));
                }
                out
            },
            AsAnsiType::ColorValueDec => {
                let mut out = String::from_str("  [");
                push_dec(&mut out, self.r);
                out.append(", ");
                push_dec(&mut out, self.g);
                out.append(", ");
                push_dec(&mut out, self.b);
                out.append("]  ");
                push_dec_padding(&mut out, self.r);
                push_dec_padding(&mut out, self.g);
                push_dec_padding(&mut out, self.b);
                proof {
                    assert(out@ =~= ansi_text(*self, display_type, None));
                }
                out
            },
            AsAnsiType::ColorValueHex => {
                let mut out = String::from_str("  #");
                push_hex(&mut out, self.r);
                push_hex(&mut out, self.g);
                push_hex(&mut out, self.b);
                out.append("  ");
                proof {
                    assert(out@ =~= ansi_text(*self, display_type, None));
                }
                out
            },
        }
    }
}

/// The name of palette slot `index` in declaration order, `bg_0` through
/// `lcd_off`.
pub open spec fn slot_name_spec(i: int) -> Seq<char> {
    if i == 0 {
        "bg_0"@
    } else if i == 1 {
        "bg_1"@
    } else if i == 2 {
        "bg_2"@
    } else if i == 3 {
        "bg_3"@
    } else if i == 4 {
        "obj0_0"@
    } else if i == 5 {
        "obj0_1"@
    } else if i == 6 {
        "obj0_2"@
    } else if i == 7 {
        "obj0_3"@
    } else if i == 8 {
        "obj1_0"@
    } else if i == 9 {
        "obj1_1"@
    } else if i == 10 {
        "obj1_2"@
    } else if i == 11 {
        "obj1_3"@
    } else if i == 12 {
        "window_0"@
    } else if i == 13 {
        "window_1"@
    } else if i == 14 {
        "window_2"@
    } else if i == 15 {
        "window_3"@
    } else {
        "lcd_off"@
    }
}

/// The name of palette slot `index`, as used for labeling template colors
/// and for reverse matching.
pub fn slot_name(index: usize) -> (name: String)
    requires
        index < 17,
    ensures
        name@ == slot_name_spec(index as int),
{
    match index {
        0 => String::from_str("bg_0"),
        1 => String::from_str("bg_1"),
        2 => String::from_str("bg_2"),
        3 => String::from_str("bg_3"),
        4 => String::from_str("obj0_0"),
        5 => String::from_str("obj0_1"),
        6 => String::from_str("obj0_2"),
        7 => String::from_str("obj0_3"),
        8 => String::from_str("obj1_0"),
        9 => String::from_str("obj1_1"),
        10 => String::from_str("obj1_2"),
        11 => String::from_str("obj1_3"),
        12 => String::from_str("window_0"),
        13 => String::from_str("window_1"),
        14 => String::from_str("window_2"),
        15 => String::from_str("window_3"),
        _ => String::from_str("lcd_off"),
    }
}

/// The character for digit value `d`, as a one-character string.
pub(crate) fn digit_str(d: u8) -> (out: &'static str)
    requires
        d < 16,
    ensures
        out@ == seq![digit_char(d as int)],
{
    proof {
        reveal_strlit("0");
        reveal_strlit("1");
        reveal_strlit("2");
        reveal_strlit("3");
        reveal_strlit("4");
        reveal_strlit("5");
        reveal_strlit("6");
        reveal_strlit("7");
        reveal_strlit("8");
        reveal_strlit("9");
        reveal_strlit("a");
        reveal_strlit("b");
        reveal_strlit("c");
        reveal_strlit("d");
        reveal_strlit("e");
        reveal_strlit("f");
    }
    match d {
        0 => "0",
        1 => "1",
        2 => "2",
        3 => "3",
        4 => "4",
        5 => "5",
        6 => "6",
        7 => "7",
        8 => "8",
        9 => "9",
        10 => "a",
        11 => "b",
        12 => "c",
        13 => "d",
        14 => "e",
        _ => "f",
    }
}

/// Append the decimal form of `n` — no leading zeros.
fn push_dec(out: &mut String, n: u8)
    ensures
        final(out)@ == old(out)@ + dec_chars(n),
{
    if n >= 100 {
        out.append(digit_str(n / 100));
    }
    if n >= 10 {
        out.append(digit_str((n / 10) % 10));
    }
    out.append(digit_str(n % 10));
    proof {
        assert(final(out)@ =~= old(out)@ + dec_chars(n));
    }
}

/// Append the spaces padding the decimal form of `n` to three columns.
fn push_dec_padding(out: &mut String, n: u8)
    ensures
        final(out)@ == old(out)@ + dec_padding(n),
{
    if n < 100 {
        out.append(" ");
    }
    if n < 10 {
        out.append(" ");
    }
    proof {
        reveal_strlit(" ");
        assert(final(out)@ =~= old(out)@ + dec_padding(n));
    }
}

/// Append the two hex digits of `n`.
fn push_hex(out: &mut String, n: u8)
    ensures
        final(out)@ == old(out)@ + hex_chars(n),
{
    out.append(digit_str(n / 16));
    out.append(digit_str(n % 16));
    proof {
        assert(final(out)@ =~= old(out)@ + hex_chars(n));
    }
}

} // verus!
