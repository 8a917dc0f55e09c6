//! Terminal colours and cursor: the fallback palette, the colour a palette
//! index resolves to, the escape sequences that load the configured colours
//! into the terminal, and the cursor style the configuration names.

use vstd::prelude::*;

use crate::config::{
    color_slices_split_char, parse_color, parsed_color, ColorsConfig, TerminalConfig,
};
use crate::text::{chars_equal, chars_of, decimal, push_bytes, push_decimal};

verus! {

/// A 24-bit colour.
#[derive(Debug, Clone, Copy, PartialEq, Eq, Structural)]
pub struct Rgb {
    pub r: u8,
    pub g: u8,
    pub b: u8,
}

/// The named entries of the terminal palette.
#[derive(Debug, Clone, Copy, PartialEq, Eq, Structural)]
pub enum NamedColor {
    Black,
    Red,
    Green,
    Yellow,
    Blue,
    Magenta,
    Cyan,
    White,
    BrightBlack,
    BrightRed,
    BrightGreen,
    BrightYellow,
    BrightBlue,
    BrightMagenta,
    BrightCyan,
    BrightWhite,
    Foreground,
    Background,
    Cursor,
    DimBlack,
    DimRed,
    DimGreen,
    DimYellow,
    DimBlue,
    DimMagenta,
    DimCyan,
    DimWhite,
    BrightForeground,
    DimForeground,
}

/// Palette index of the foreground colour.
pub const FOREGROUND_INDEX: usize = 256;
/// Palette index of the background colour.
pub const BACKGROUND_INDEX: usize = 257;
/// Palette index of the cursor colour.
pub const CURSOR_INDEX: usize = 258;
/// Palette index of the bright foreground colour.
pub const BRIGHT_FOREGROUND_INDEX: usize = 267;

pub open spec fn rgb(r: u8, g: u8, b: u8) -> Rgb {
    Rgb { r, g, b }
}

/// The built-in colour of each named palette entry; entries without one of
/// their own are light grey.
pub open spec fn named_fallback_spec(named: NamedColor) -> Rgb {
    match named {
        NamedColor::Black => rgb(0, 0, 0),
        NamedColor::Red => rgb(205, 49, 49),
        NamedColor::Green => rgb(13, 188, 121),
        NamedColor::Yellow => rgb(229, 229, 16),
        NamedColor::Blue => rgb(36, 114, 200),
        NamedColor::Magenta => rgb(188, 63, 188),
        NamedColor::Cyan => rgb(17, 168, 205),
        NamedColor::White => rgb(229, 229, 229),
        NamedColor::BrightBlack => rgb(102, 102, 102),
        NamedColor::BrightRed => rgb(241, 76, 76),
        NamedColor::BrightGreen => rgb(35, 209, 139),
        NamedColor::BrightYellow => rgb(245, 245, 67),
        NamedColor::BrightBlue => rgb(59, 142, 234),
        NamedColor::BrightMagenta => rgb(214, 112, 214),
        NamedColor::BrightCyan => rgb(41, 184, 219),
        NamedColor::BrightWhite => rgb(255, 255, 255),
        _ => rgb(204, 204, 204),
    }
}

/// The named colour of palette entries 0 to 15.
pub open spec fn ansi_named(index: u8) -> NamedColor {
    if index == 0 {
        NamedColor::Black
    } else if index == 1 {
        NamedColor::Red
    } else if index == 2 {
        NamedColor::Green
    } else if index == 3 {
        NamedColor::Yellow
    } else if index == 4 {
        NamedColor::Blue
    } else if index == 5 {
        NamedColor::Magenta
    } else if index == 6 {
        NamedColor::Cyan
    } else if index == 7 {
        NamedColor::White
    } else if index == 8 {
        NamedColor::BrightBlack
    } else if index == 9 {
        NamedColor::BrightRed
    } else if index == 10 {
        NamedColor::BrightGreen
    } else if index == 11 {
        NamedColor::BrightYellow
    } else if index == 12 {
        NamedColor::BrightBlue
    } else if index == 13 {
        NamedColor::BrightMagenta
    } else if index == 14 {
        NamedColor::BrightCyan
    } else {
        NamedColor::BrightWhite
    }
}

/// The 256-colour palette: 16 named colours, a 6x6x6 colour cube with
/// steps of 51, and 24 greys from 8 in steps of 10.
pub open spec fn indexed_color_spec(index: u8) -> Rgb {
    if index < 16 {
        named_fallback_spec(ansi_named(index))
    } else if index < 232 {
        let i = index - 16;
        rgb((i / 36 * 51) as u8, ((i / 6) % 6 * 51) as u8, (i % 6 * 51) as u8)
    } else {
        let gray = (8 + (index - 232) * 10) as u8;
        rgb(gray, gray, gray)
    }
}

pub(crate) fn named_fallback(named: NamedColor) -> (r: Rgb)
    ensures
        r == named_fallback_spec(named),
{
    match named {
        NamedColor::Black => Rgb { r: 0, g: 0, b: 0 },
        NamedColor::Red => Rgb { r: 205, g: 49, b: 49 },
        NamedColor::Green => Rgb { r: 13, g: 188, b: 121 },
        NamedColor::Yellow => Rgb { r: 229, g: 229, b: 16 },
        NamedColor::Blue => Rgb { r: 36, g: 114, b: 200 },
        NamedColor::Magenta => Rgb { r: 188, g: 63, b: 188 },
        NamedColor::Cyan => Rgb { r: 17, g: 168, b: 205 },
        NamedColor::White => Rgb { r: 229, g: 229, b: 229 },
        NamedColor::BrightBlack => Rgb { r: 102, g: 102, b: 102 },
        NamedColor::BrightRed => Rgb { r: 241, g: 76, b: 76 },
        NamedColor::BrightGreen => Rgb { r: 35, g: 209, b: 139 },
        NamedColor::BrightYellow => Rgb { r: 245, g: 245, b: 67 },
        NamedColor::BrightBlue => Rgb { r: 59, g: 142, b: 234 },
        NamedColor::BrightMagenta => Rgb { r: 214, g: 112, b: 214 },
        NamedColor::BrightCyan => Rgb { r: 41, g: 184, b: 219 },
        NamedColor::BrightWhite => Rgb { r: 255, g: 255, b: 255 },
        _ => Rgb { r: 204, g: 204, b: 204 },
    }
}

pub(crate) fn indexed_color(index: u8) -> (r: Rgb)
    ensures
        r == indexed_color_spec(index),
{
    if index < 16 {
        named_fallback(
            match index {
                0 => NamedColor::Black,
                1 => NamedColor::Red,
                2 => NamedColor::Green,
                3 => NamedColor::Yellow,
                4 => NamedColor::Blue,
                5 => NamedColor::Magenta,
                6 => NamedColor::Cyan,
                7 => NamedColor::White,
                8 => NamedColor::BrightBlack,
                9 => NamedColor::BrightRed,
                10 => NamedColor::BrightGreen,
                11 => NamedColor::BrightYellow,
                12 => NamedColor::BrightBlue,
                13 => NamedColor::BrightMagenta,
                14 => NamedColor::BrightCyan,
                _ => NamedColor::BrightWhite,
            },
        )
    } else if index < 232 {
        let index = index - 16;
        Rgb { r: (index / 36) * 51, g: ((index / 6) % 6) * 51, b: (index % 6) * 51 }
    } else {
        let gray = 8 + (index - 232) * 10;
        Rgb { r: gray, g: gray, b: gray }
    }
}

/// The channels of a colour string, when it parses (see `parsed_color`).
pub open spec fn hex_rgb(hex: Seq<char>) -> Option<Rgb> {
    match parsed_color(hex) {
        Ok((r, g, b)) => Some(rgb(r, g, b)),
        Err(_) => None,
    }
}

/// The colour a configured string gives, light grey when it does not parse.
pub open spec fn config_rgb_spec(hex: Seq<char>) -> Rgb {
    match hex_rgb(hex) {
        Some(c) => c,
        None => rgb(204, 204, 204),
    }
}

fn rgb_bytes(hex: &str) -> (r: Option<(u8, u8, u8)>)
    requires
        !color_slices_split_char(hex@),
    ensures
        r == (match parsed_color(hex@) {
            Ok(t) => Some(t),
            Err(_) => None::<(u8, u8, u8)>,
        }),
{
    match parse_color(hex) {
        Ok(t) => Some(t),
        Err(_) => None,
    }
}

/// The colour a `#rrggbb` string names.
pub fn rgb_from_hex(hex: &str) -> (r: Option<Rgb>)
    requires
        !color_slices_split_char(hex@),
    ensures
        r == hex_rgb(hex@),
{
    match rgb_bytes(hex) {
        Some((r, g, b)) => Some(Rgb { r, g, b }),
        None => None,
    }
}

fn config_rgb(hex: &str) -> (r: Rgb)
    requires
        !color_slices_split_char(hex@),
    ensures
        r == config_rgb_spec(hex@),
{
    match rgb_from_hex(hex) {
        Some(c) => c,
        None => Rgb { r: 204, g: 204, b: 204 },
    }
}

/// The colour of palette entry `index`: the terminal's own setting when it
/// has one; otherwise the configured foreground, background or cursor colour
/// for those entries (the bright foreground too takes the foreground), and
/// the built-in palette for the rest, taken modulo 256.
pub open spec fn resolved_color(term_color: Option<Rgb>, colors: ColorsConfig, index: usize) -> Rgb {
    match term_color {
        Some(c) => c,
        None => if index == FOREGROUND_INDEX || index == BRIGHT_FOREGROUND_INDEX {
            config_rgb_spec(colors.foreground@)
        } else if index == BACKGROUND_INDEX {
            config_rgb_spec(colors.background@)
        } else if index == CURSOR_INDEX {
            config_rgb_spec(colors.cursor@)
        } else {
            indexed_color_spec((index % 256) as u8)
        },
    }
}

/// Resolves palette entry `index`; `term_color` is the terminal's own
/// setting for that entry.
pub fn resolve_color_at_index(term_color: Option<Rgb>, colors: &ColorsConfig, index: usize) -> (r: Rgb)
    requires
        term_color is None && (index == FOREGROUND_INDEX || index == BRIGHT_FOREGROUND_INDEX)
            ==> !color_slices_split_char(colors.foreground@),
        term_color is None && index == BACKGROUND_INDEX ==> !color_slices_split_char(colors.background@),
        term_color is None && index == CURSOR_INDEX ==> !color_slices_split_char(colors.cursor@),
    ensures
        r == resolved_color(term_color, *colors, index),
{
    if let Some(c) = term_color {
        return c;
    }
    if index == FOREGROUND_INDEX {
        config_rgb(&colors.foreground)
    } else if index == BACKGROUND_INDEX {
        config_rgb(&colors.background)
    } else if index == CURSOR_INDEX {
        config_rgb(&colors.cursor)
    } else if index < 256 {
        indexed_color(index as u8)
    } else if index == BRIGHT_FOREGROUND_INDEX {
        config_rgb(&colors.foreground)
    } else {
        indexed_color((index % 256) as u8)
    }
}

/// A lower-case hexadecimal digit.
pub open spec fn hex_digit(n: u8) -> u8
    recommends
        n < 16,
{
    if n < 10 {
        (0x30 + n) as u8
    } else {
        (0x61 + n - 10) as u8
    }
}

/// A channel as two lower-case hexadecimal digits.
pub open spec fn hex2(v: u8) -> Seq<u8> {
    seq![hex_digit(v / 16), hex_digit(v % 16)]
}

/// `ESC ] <code> ;rgb:<rr>/<gg>/<bb> ESC \` with each channel as two
/// hexadecimal digits (as terminals read `rgb:` fields), or nothing when the
/// colour does not parse. Palette entries are set with code `4;<index>`.
pub open spec fn osc_color_bytes(prefix: Seq<u8>, hex: Seq<char>) -> Seq<u8> {
    match parsed_color(hex) {
        Ok((r, g, b)) => seq![0x1bu8, 0x5du8] + prefix + seq![0x3bu8, 0x72u8, 0x67u8, 0x62u8, 0x3au8]
            + hex2(r) + seq![0x2fu8] + hex2(g) + seq![0x2fu8] + hex2(b)
            + seq![0x1bu8, 0x5cu8],
        Err(_) => Seq::empty(),
    }
}

pub open spec fn palette_prefix(index: nat) -> Seq<u8> {
    seq![0x34u8, 0x3bu8] + decimal(index)
}

fn hex_digit_byte(n: u8) -> (r: u8)
    requires
        n < 16,
    ensures
        r == hex_digit(n),
{
    if n < 10 {
        0x30 + n
    } else {
        0x61 + n - 10
    }
}

fn push_hex2(buf: &mut Vec<u8>, v: u8)
    ensures
        final(buf)@ == old(buf)@ + hex2(v),
{
    buf.push(hex_digit_byte(v / 16));
    buf.push(hex_digit_byte(v % 16));
    assert(buf@ =~= old(buf)@ + hex2(v));
}

fn push_osc_color(buf: &mut Vec<u8>, prefix: &Vec<u8>, hex: &str)
    requires
        !color_slices_split_char(hex@),
    ensures
        final(buf)@ == old(buf)@ + osc_color_bytes(prefix@, hex@),
{
    if let Some((r, g, b)) = rgb_bytes(hex) {
        let ghost b0 = buf@;
        buf.push(0x1b);
        buf.push(0x5d);
        push_bytes(buf, prefix.as_slice());
        let rgb_tag = [0x3bu8, 0x72, 0x67, 0x62, 0x3a];
        push_bytes(buf, &rgb_tag);
        push_hex2(buf, r);
        buf.push(0x2f);
        push_hex2(buf, g);
        buf.push(0x2f);
        push_hex2(buf, b);
        buf.push(0x1b);
        buf.push(0x5c);
        assert(buf@ =~= b0 + osc_color_bytes(prefix@, hex@));
    } else {
        assert(buf@ =~= old(buf)@ + osc_color_bytes(prefix@, hex@));
    }
}

fn push_osc_indexed(buf: &mut Vec<u8>, index: usize, hex: &str)
    requires
        !color_slices_split_char(hex@),
    ensures
        final(buf)@ == old(buf)@ + osc_color_bytes(palette_prefix(index as nat), hex@),
{
    let mut prefix: Vec<u8> = Vec::new();
    prefix.push(0x34);
    prefix.push(0x3b);
    push_decimal(&mut prefix, index as u64);
    assert(prefix@ =~= palette_prefix(index as nat));
    push_osc_color(buf, &prefix, hex);
}

fn push_osc_dynamic(buf: &mut Vec<u8>, code: u8, hex: &str)
    requires
        !color_slices_split_char(hex@),
    ensures
        final(buf)@ == old(buf)@ + osc_color_bytes(decimal(code as nat), hex@),
{
    let mut prefix: Vec<u8> = Vec::new();
    push_decimal(&mut prefix, code as u64);
    assert(prefix@ =~= decimal(code as nat));
    push_osc_color(buf, &prefix, hex);
}

/// No string of the list is one whose channels cannot be read.
pub open spec fn colors_readable(list: Seq<String>) -> bool {
    forall|i: int| 0 <= i < list.len() ==> !color_slices_split_char((#[trigger] list[i])@)
}

/// The escapes that set palette entries `0..k` from the list.
pub open spec fn palette_bytes(list: Seq<String>, k: nat) -> Seq<u8>
    decreases k,
{
    if k == 0 {
        Seq::empty()
    } else {
        palette_bytes(list, (k - 1) as nat) + osc_color_bytes(palette_prefix((k - 1) as nat), list[k - 1]@)
    }
}

pub open spec fn min_nat(a: nat, b: nat) -> nat {
    if a < b { a } else { b }
}

/// The escapes that load a colour configuration into the terminal: the
/// dynamic foreground (10), background (11) and cursor (12) colours, then
/// the first 16 entries of `palette_16` and the first 256 of `palette_256`.
pub open spec fn color_setup_bytes(colors: ColorsConfig) -> Seq<u8> {
    osc_color_bytes(decimal(10), colors.foreground@) + osc_color_bytes(decimal(11), colors.background@)
        + osc_color_bytes(decimal(12), colors.cursor@) + match colors.palette_16 {
        Some(p) => palette_bytes(p@, min_nat(p@.len(), 16)),
        None => Seq::empty(),
    } + match colors.palette_256 {
        Some(p) => palette_bytes(p@, min_nat(p@.len(), 256)),
        None => Seq::empty(),
    }
}

/// Every colour string of the configuration can be read.
pub open spec fn colors_config_readable(colors: ColorsConfig) -> bool {
    &&& !color_slices_split_char(colors.foreground@)
    &&& !color_slices_split_char(colors.background@)
    &&& !color_slices_split_char(colors.cursor@)
    &&& (colors.palette_16 matches Some(p) ==> colors_readable(p@))
    &&& (colors.palette_256 matches Some(p) ==> colors_readable(p@))
}

fn push_palette(buf: &mut Vec<u8>, list: &Vec<String>, limit: usize)
    requires
        colors_readable(list@),
    ensures
        final(buf)@ == old(buf)@ + palette_bytes(list@, min_nat(list@.len(), limit as nat)),
{
    let n = if list.len() < limit { list.len() } else { limit };
    let mut i: usize = 0;
    while i < n
        invariant
            i <= n <= list@.len(),
            colors_readable(list@),
            buf@ == old(buf)@ + palette_bytes(list@, i as nat),
        decreases n - i,
    {
        let ghost before = buf@;
        push_osc_indexed(buf, i, &list[i]);
        i += 1;
        assert(buf@ =~= old(buf)@ + palette_bytes(list@, i as nat));
    }
}

/// The escape sequence that loads `colors` into a terminal (see
/// `color_setup_bytes`); empty when nothing parses.
pub fn config_color_sequence(colors: &ColorsConfig) -> (r: Vec<u8>)
    requires
        colors_config_readable(*colors),
    ensures
        r@ == color_setup_bytes(*colors),
{
    let mut seq: Vec<u8> = Vec::new();
    push_osc_dynamic(&mut seq, 10, &colors.foreground);
    push_osc_dynamic(&mut seq, 11, &colors.background);
    push_osc_dynamic(&mut seq, 12, &colors.cursor);
    let ghost head = seq@;
    if let Some(p) = &colors.palette_16 {
        push_palette(&mut seq, p, 16);
    }
    let ghost mid = seq@;
    if let Some(p) = &colors.palette_256 {
        push_palette(&mut seq, p, 256);
    }
    assert(seq@ =~= color_setup_bytes(*colors));
    seq
}

/// Terminal cursor shape.
#[derive(Debug, Clone, Copy, PartialEq, Eq, Structural)]
pub enum CursorShape {
    Block,
    Underline,
    Beam,
    HollowBlock,
    Hidden,
}

#[derive(Debug, Clone, Copy, PartialEq, Eq, Structural)]
pub struct CursorStyle {
    pub shape: CursorShape,
    pub blinking: bool,
}

/// The shape a `cursor_style` setting names; unknown names give a block.
pub open spec fn cursor_shape_for(style: Seq<char>) -> CursorShape {
    if style == "beam"@ || style == "steady_beam"@ {
        CursorShape::Beam
    } else if style == "underline"@ || style == "steady_underline"@ {
        CursorShape::Underline
    } else if style == "hollow"@ || style == "steady_hollow"@ {
        CursorShape::HollowBlock
    } else if style == "hidden"@ {
        CursorShape::Hidden
    } else {
        CursorShape::Block
    }
}

/// Only the `steady_` names stop the cursor from blinking.
pub open spec fn cursor_blinks(style: Seq<char>) -> bool {
    !(style == "steady_block"@ || style == "steady_beam"@ || style == "steady_underline"@
        || style == "steady_hollow"@)
}

/// The cursor style that the terminal configuration names.
pub fn cursor_style_from_config(config: &TerminalConfig) -> (r: CursorStyle)
    ensures
        r.shape == cursor_shape_for(config.cursor_style@),
        r.blinking == cursor_blinks(config.cursor_style@),
{
    let s = chars_of(config.cursor_style.as_str());
    let beam = ['b', 'e', 'a', 'm'];
    let steady_beam = ['s', 't', 'e', 'a', 'd', 'y', '_', 'b', 'e', 'a', 'm'];
    let underline = ['u', 'n', 'd', 'e', 'r', 'l', 'i', 'n', 'e'];
    let steady_underline = ['s', 't', 'e', 'a', 'd', 'y', '_', 'u', 'n', 'd', 'e', 'r', 'l', 'i', 'n', 'e'];
    let hollow = ['h', 'o', 'l', 'l', 'o', 'w'];
    let steady_hollow = ['s', 't', 'e', 'a', 'd', 'y', '_', 'h', 'o', 'l', 'l', 'o', 'w'];
    let hidden = ['h', 'i', 'd', 'd', 'e', 'n'];
    let steady_block = ['s', 't', 'e', 'a', 'd', 'y', '_', 'b', 'l', 'o', 'c', 'k'];
    proof {
        reveal_strlit("beam");
        reveal_strlit("steady_beam");
        reveal_strlit("underline");
        reveal_strlit("steady_underline");
        reveal_strlit("hollow");
        reveal_strlit("steady_hollow");
        reveal_strlit("hidden");
        reveal_strlit("steady_block");
        assert(beam@ =~= "beam"@);
        assert(steady_beam@ =~= "steady_beam"@);
        assert(underline@ =~= "underline"@);
        assert(steady_underline@ =~= "steady_underline"@);
        assert(hollow@ =~= "hollow"@);
        assert(steady_hollow@ =~= "steady_hollow"@);
        assert(hidden@ =~= "hidden"@);
        assert(steady_block@ =~= "steady_block"@);
    }
    let is_steady_beam = chars_equal(&s, &steady_beam);
    let is_steady_underline = chars_equal(&s, &steady_underline);
    let is_steady_hollow = chars_equal(&s, &steady_hollow);
    let is_steady_block = chars_equal(&s, &steady_block);
    let shape = if is_steady_beam || chars_equal(&s, &beam) {
        CursorShape::Beam
    } else if is_steady_underline || chars_equal(&s, &underline) {
        CursorShape::Underline
    } else if is_steady_hollow || chars_equal(&s, &hollow) {
        CursorShape::HollowBlock
    } else if chars_equal(&s, &hidden) {
        CursorShape::Hidden
    } else {
        CursorShape::Block
    };
    let blinking = !(is_steady_block || is_steady_beam || is_steady_underline || is_steady_hollow);
    CursorStyle { shape, blinking }
}

} // verus!
