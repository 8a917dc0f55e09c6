//! Cell text and cell styles as the scene draws them: the text of a cell,
//! which texts the glyph atlas takes, and what a cell's flags ask for.

use vstd::prelude::*;

use crate::search::{link_match_contains, search_active_match_contains, search_match_contains, span_covers, SearchMatch};
use crate::terminal_setup::{indexed_color, indexed_color_spec, named_fallback, named_fallback_spec, rgb, NamedColor, Rgb};
use crate::text::{chars_of, push_char};

verus! {

/// Flag bits of a grid cell, numbered as the terminal core numbers them.
#[derive(Clone, Copy, PartialEq, Eq, Debug, Structural)]
pub struct CellFlags {
    pub bits: u16,
}

pub const INVERSE: u16 = 0x1;
pub const BOLD: u16 = 0x2;
pub const ITALIC: u16 = 0x4;
pub const BOLD_ITALIC: u16 = 0x6;
pub const UNDERLINE: u16 = 0x8;
pub const WRAPLINE: u16 = 0x10;
pub const WIDE_CHAR: u16 = 0x20;
pub const WIDE_CHAR_SPACER: u16 = 0x40;
pub const DIM: u16 = 0x80;
pub const DIM_BOLD: u16 = 0x82;
pub const HIDDEN: u16 = 0x100;
pub const STRIKEOUT: u16 = 0x200;
pub const LEADING_WIDE_CHAR_SPACER: u16 = 0x400;
pub const DOUBLE_UNDERLINE: u16 = 0x800;
pub const UNDERCURL: u16 = 0x1000;
pub const DOTTED_UNDERLINE: u16 = 0x2000;
pub const DASHED_UNDERLINE: u16 = 0x4000;
/// SGR 5 blinking text: the bit above the core's own flags, set by a
/// terminal core that tracks blinking.
pub const BLINK: u16 = 0x8000;

/// Every bit of `flags` is set in `bits`.
pub open spec fn flags_have(bits: u16, flags: u16) -> bool {
    bits & flags == flags
}

impl CellFlags {
    pub fn contains(&self, flags: u16) -> (r: bool)
        ensures
            r == flags_have(self.bits, flags),
    {
        self.bits & flags == flags
    }

    /// Some bit of `flags` is set.
    pub fn intersects(&self, flags: u16) -> (r: bool)
        ensures
            r == (self.bits & flags != 0),
    {
        self.bits & flags != 0
    }
}

#[derive(Clone, Copy, PartialEq, Eq, Debug, Structural)]
pub enum UnderlineKind {
    NoUnderline,
    Single,
    Double,
    Curly,
    Dotted,
    Dashed,
}

/// The underline a cell's flags ask for; when several are set, curly wins
/// over double, double over dotted, dotted over dashed, dashed over single.
pub open spec fn underline_for(bits: u16) -> UnderlineKind {
    if flags_have(bits, UNDERCURL) {
        UnderlineKind::Curly
    } else if flags_have(bits, DOUBLE_UNDERLINE) {
        UnderlineKind::Double
    } else if flags_have(bits, DOTTED_UNDERLINE) {
        UnderlineKind::Dotted
    } else if flags_have(bits, DASHED_UNDERLINE) {
        UnderlineKind::Dashed
    } else if flags_have(bits, UNDERLINE) {
        UnderlineKind::Single
    } else {
        UnderlineKind::NoUnderline
    }
}

pub fn underline_kind_from_flags(flags: CellFlags) -> (r: UnderlineKind)
    ensures
        r == underline_for(flags.bits),
{
    if flags.contains(UNDERCURL) {
        UnderlineKind::Curly
    } else if flags.contains(DOUBLE_UNDERLINE) {
        UnderlineKind::Double
    } else if flags.contains(DOTTED_UNDERLINE) {
        UnderlineKind::Dotted
    } else if flags.contains(DASHED_UNDERLINE) {
        UnderlineKind::Dashed
    } else if flags.contains(UNDERLINE) {
        UnderlineKind::Single
    } else {
        UnderlineKind::NoUnderline
    }
}

/// The text attributes of a cell: everything of its style but the colour.
#[derive(Clone, Copy, PartialEq, Eq, Debug, Structural)]
pub struct TextAttributes {
    pub bold: bool,
    pub italic: bool,
    pub underline: UnderlineKind,
    pub strikethrough: bool,
    pub dim: bool,
    pub blink: bool,
}

/// A cell under a hovered link is underlined (singly, unless its flags ask
/// for another underline); bold and dim-bold make bold, italic and
/// bold-italic make italic.
pub open spec fn text_attributes_for(bits: u16, link_hovered: bool) -> TextAttributes {
    TextAttributes {
        bold: bits & (BOLD | BOLD_ITALIC | DIM_BOLD) != 0,
        italic: bits & (ITALIC | BOLD_ITALIC) != 0,
        underline: if link_hovered && underline_for(bits) == UnderlineKind::NoUnderline {
            UnderlineKind::Single
        } else {
            underline_for(bits)
        },
        strikethrough: flags_have(bits, STRIKEOUT),
        dim: bits & (DIM | DIM_BOLD) != 0,
        blink: flags_have(bits, BLINK),
    }
}

/// The text attributes of a cell with the given flags.
pub fn text_attributes(flags: CellFlags, link_hovered: bool) -> (r: TextAttributes)
    ensures
        r == text_attributes_for(flags.bits, link_hovered),
{
    let mut underline = underline_kind_from_flags(flags);
    if link_hovered && underline == UnderlineKind::NoUnderline {
        underline = UnderlineKind::Single;
    }
    TextAttributes {
        bold: flags.intersects(BOLD | BOLD_ITALIC | DIM_BOLD),
        italic: flags.intersects(ITALIC | BOLD_ITALIC),
        underline,
        strikethrough: flags.contains(STRIKEOUT),
        dim: flags.intersects(DIM | DIM_BOLD),
        blink: flags.contains(BLINK),
    }
}

/// Whether two glyph styles draw alike, so that their cells can be shaped
/// in one run: the same colour (`same_foreground`, compared by the caller)
/// and the same weight, slant, underline, strike-through and blinking. Dim
/// text is told apart by its colour.
pub fn glyph_styles_match(a: &TextAttributes, b: &TextAttributes, same_foreground: bool) -> (r: bool)
    ensures
        r == (same_foreground && a.bold == b.bold && a.italic == b.italic && a.underline == b.underline
            && a.strikethrough == b.strikethrough && a.blink == b.blink),
{
    same_foreground && a.bold == b.bold && a.italic == b.italic && a.underline == b.underline
        && a.strikethrough == b.strikethrough && a.blink == b.blink
}

/// Where a cell's text colour comes from.
#[derive(Clone, Copy, PartialEq, Eq, Debug, Structural)]
pub enum ForegroundSource {
    /// A hovered link covers the cell.
    Link,
    /// The current search match covers the cell.
    ActiveMatch,
    /// Another search match covers the cell.
    Match,
    /// The cell's own colour (after selection and inverse).
    Cell,
}

/// The colour source of cell `(row, col)`: a hovered link first, then the
/// current search match, then any search match, else the cell itself.
pub open spec fn foreground_source_of(
    matches: Seq<SearchMatch>,
    active: Option<usize>,
    links: Seq<SearchMatch>,
    row: usize,
    col: usize,
) -> ForegroundSource {
    if exists|i: int| 0 <= i < links.len() && span_covers(#[trigger] links[i], row, col) {
        ForegroundSource::Link
    } else if active matches Some(i) && i < matches.len() && span_covers(matches[i as int], row, col) {
        ForegroundSource::ActiveMatch
    } else if exists|i: int| 0 <= i < matches.len() && span_covers(#[trigger] matches[i], row, col) {
        ForegroundSource::Match
    } else {
        ForegroundSource::Cell
    }
}

/// The colour source of a cell (see `foreground_source_of`).
pub fn foreground_source(
    matches: &[SearchMatch],
    active: Option<usize>,
    links: &[SearchMatch],
    row: usize,
    col: usize,
) -> (r: ForegroundSource)
    ensures
        r == foreground_source_of(matches@, active, links@, row, col),
{
    if link_match_contains(links, row, col) {
        ForegroundSource::Link
    } else if search_active_match_contains(matches, active, row, col) {
        ForegroundSource::ActiveMatch
    } else if search_match_contains(matches, row, col) {
        ForegroundSource::Match
    } else {
        ForegroundSource::Cell
    }
}

/// Columns a cell takes: two for a wide character, else one.
pub fn cell_column_span(flags: CellFlags) -> (r: usize)
    ensures
        r == (if flags_have(flags.bits, WIDE_CHAR) { 2usize } else { 1usize }),
{
    if flags.contains(WIDE_CHAR) {
        2
    } else {
        1
    }
}

/// Appends a cell's text: its character, then its zero-width characters.
pub fn push_cell_text(buf: &mut String, c: char, zerowidth: &[char])
    ensures
        final(buf)@ == old(buf)@ + seq![c] + zerowidth@,
{
    push_char(buf, c);
    let mut i: usize = 0;
    while i < zerowidth.len()
        invariant
            i <= zerowidth@.len(),
            buf@ == old(buf)@ + seq![c] + zerowidth@.take(i as int),
        decreases zerowidth@.len() - i,
    {
        push_char(buf, zerowidth[i]);
        i += 1;
        assert(buf@ =~= old(buf)@ + seq![c] + zerowidth@.take(i as int));
    }
    assert(zerowidth@.take(zerowidth@.len() as int) =~= zerowidth@);
}

/// The combining diacritical mark blocks: U+0300–036F, U+1AB0–1AFF,
/// U+1DC0–1DFF, U+20D0–20FF and U+FE20–FE2F.
pub open spec fn combining_mark(c: char) -> bool {
    let v = c as u32;
    (0x0300 <= v && v <= 0x036f) || (0x1ab0 <= v && v <= 0x1aff) || (0x1dc0 <= v && v <= 0x1dff) || (
    0x20d0 <= v && v <= 0x20ff) || (0xfe20 <= v && v <= 0xfe2f)
}

pub fn is_combining_mark(ch: char) -> (r: bool)
    ensures
        r == combining_mark(ch),
{
    let v = ch as u32;
    (0x0300 <= v && v <= 0x036f) || (0x1ab0 <= v && v <= 0x1aff) || (0x1dc0 <= v && v <= 0x1dff) || (
    0x20d0 <= v && v <= 0x20ff) || (0xfe20 <= v && v <= 0xfe2f)
}

pub open spec fn is_ascii_char(c: char) -> bool {
    (c as u32) < 0x80
}

/// The glyph atlas takes a text of one to eight characters that is an
/// ASCII character followed by ASCII characters and combining marks, or a
/// single character of any kind.
pub open spec fn atlas_candidate(text: Seq<char>) -> bool {
    &&& 1 <= text.len() <= 8
    &&& if is_ascii_char(text[0]) {
        forall|i: int| 1 <= i < text.len() ==> is_ascii_char(#[trigger] text[i]) || combining_mark(text[i])
    } else {
        text.len() == 1
    }
}

/// Whether the glyph atlas can draw `text` (see `atlas_candidate`).
pub fn atlas_text_candidate(text: &str) -> (r: bool)
    ensures
        r == atlas_candidate(text@),
{
    let chars = chars_of(text);
    if chars.len() == 0 || chars.len() > 8 {
        return false;
    }
    if (chars[0] as u32) < 0x80 {
        let mut i: usize = 1;
        while i < chars.len()
            invariant
                1 <= i <= chars@.len(),
                chars@ == text@,
                forall|k: int| 1 <= k < i ==> is_ascii_char(#[trigger] chars@[k]) || combining_mark(chars@[k]),
            decreases chars@.len() - i,
        {
            if !((chars[i] as u32) < 0x80 || is_combining_mark(chars[i])) {
                return false;
            }
            i += 1;
        }
        true
    } else {
        chars.len() == 1
    }
}

/// The number of slots of the terminal's colour table: 256 indexed colours
/// and the named ones after them.
pub const COLOR_SLOTS: usize = 269;

/// A cell's colour as the terminal core records it.
#[derive(Clone, Copy, Debug, PartialEq, Eq, Structural)]
pub enum TermColor {
    Spec(Rgb),
    Named(NamedColor),
    Indexed(u8),
}

/// The colour a cell is drawn with: the window's default brush, or a colour.
#[derive(Clone, Copy, Debug, PartialEq, Eq, Structural)]
pub enum CellColor {
    Default,
    Color(Rgb),
}

/// The slot of a named colour in the colour table: the ANSI colours 0 to
/// 15, then foreground, background, cursor, the dim colours, bright and dim
/// foreground from 256 on.
pub open spec fn named_slot(n: NamedColor) -> nat {
    match n {
        NamedColor::Black => 0,
        NamedColor::Red => 1,
        NamedColor::Green => 2,
        NamedColor::Yellow => 3,
        NamedColor::Blue => 4,
        NamedColor::Magenta => 5,
        NamedColor::Cyan => 6,
        NamedColor::White => 7,
        NamedColor::BrightBlack => 8,
        NamedColor::BrightRed => 9,
        NamedColor::BrightGreen => 10,
        NamedColor::BrightYellow => 11,
        NamedColor::BrightBlue => 12,
        NamedColor::BrightMagenta => 13,
        NamedColor::BrightCyan => 14,
        NamedColor::BrightWhite => 15,
        NamedColor::Foreground => 256,
        NamedColor::Background => 257,
        NamedColor::Cursor => 258,
        NamedColor::DimBlack => 259,
        NamedColor::DimRed => 260,
        NamedColor::DimGreen => 261,
        NamedColor::DimYellow => 262,
        NamedColor::DimBlue => 263,
        NamedColor::DimMagenta => 264,
        NamedColor::DimCyan => 265,
        NamedColor::DimWhite => 266,
        NamedColor::BrightForeground => 267,
        NamedColor::DimForeground => 268,
    }
}

fn named_slot_of(n: NamedColor) -> (r: usize)
    ensures
        r == named_slot(n),
{
    match n {
        NamedColor::Black => 0,
        NamedColor::Red => 1,
        NamedColor::Green => 2,
        NamedColor::Yellow => 3,
        NamedColor::Blue => 4,
        NamedColor::Magenta => 5,
        NamedColor::Cyan => 6,
        NamedColor::White => 7,
        NamedColor::BrightBlack => 8,
        NamedColor::BrightRed => 9,
        NamedColor::BrightGreen => 10,
        NamedColor::BrightYellow => 11,
        NamedColor::BrightBlue => 12,
        NamedColor::BrightMagenta => 13,
        NamedColor::BrightCyan => 14,
        NamedColor::BrightWhite => 15,
        NamedColor::Foreground => 256,
        NamedColor::Background => 257,
        NamedColor::Cursor => 258,
        NamedColor::DimBlack => 259,
        NamedColor::DimRed => 260,
        NamedColor::DimGreen => 261,
        NamedColor::DimYellow => 262,
        NamedColor::DimBlue => 263,
        NamedColor::DimMagenta => 264,
        NamedColor::DimCyan => 265,
        NamedColor::DimWhite => 266,
        NamedColor::BrightForeground => 267,
        NamedColor::DimForeground => 268,
    }
}

/// The renderer's own colour for a named entry the table leaves unset: the
/// built-in palette, with a dark grey background and a white cursor.
pub open spec fn drawn_named_fallback(n: NamedColor) -> Rgb {
    match n {
        NamedColor::Background => rgb(30, 30, 30),
        NamedColor::Cursor => rgb(255, 255, 255),
        _ => named_fallback_spec(n),
    }
}

fn drawn_named_fallback_of(n: NamedColor) -> (r: Rgb)
    ensures
        r == drawn_named_fallback(n),
{
    match n {
        NamedColor::Background => Rgb { r: 30, g: 30, b: 30 },
        NamedColor::Cursor => Rgb { r: 255, g: 255, b: 255 },
        _ => named_fallback(n),
    }
}

/// The colour a cell's foreground (`is_foreground`) or background is drawn
/// with, `table` being the terminal's colour table: an explicit colour as it
/// is; the default foreground and background as the window's default brush;
/// other named and indexed colours from the table, or the built-in palette
/// where the table has none.
pub open spec fn cell_color_spec(color: TermColor, table: Seq<Option<Rgb>>, is_foreground: bool) -> CellColor {
    match color {
        TermColor::Spec(c) => CellColor::Color(c),
        TermColor::Named(n) => if is_foreground && (n == NamedColor::Foreground || n == NamedColor::BrightForeground) {
            CellColor::Default
        } else if !is_foreground && n == NamedColor::Background {
            CellColor::Default
        } else {
            match table[named_slot(n) as int] {
                Some(c) => CellColor::Color(c),
                None => CellColor::Color(drawn_named_fallback(n)),
            }
        },
        TermColor::Indexed(i) => match table[i as int] {
            Some(c) => CellColor::Color(c),
            None => CellColor::Color(indexed_color_spec(i)),
        },
    }
}

/// The colour a cell is drawn with (see `cell_color_spec`).
pub fn cell_color(color: TermColor, table: &[Option<Rgb>], is_foreground: bool) -> (r: CellColor)
    requires
        table@.len() == COLOR_SLOTS,
    ensures
        r == cell_color_spec(color, table@, is_foreground),
{
    match color {
        TermColor::Spec(c) => CellColor::Color(c),
        TermColor::Named(n) => {
            let default_fg = match n {
                NamedColor::Foreground | NamedColor::BrightForeground => true,
                _ => false,
            };
            let default_bg = match n {
                NamedColor::Background => true,
                _ => false,
            };
            if is_foreground && default_fg {
                CellColor::Default
            } else if !is_foreground && default_bg {
                CellColor::Default
            } else {
                match table[named_slot_of(n)] {
                    Some(c) => CellColor::Color(c),
                    None => CellColor::Color(drawn_named_fallback_of(n)),
                }
            }
        },
        TermColor::Indexed(i) => match table[i as usize] {
            Some(c) => CellColor::Color(c),
            None => CellColor::Color(indexed_color(i)),
        },
    }
}

} // verus!
