//! Keys of the glyph cache: shaped text is cached per text, style and font
//! size.

use vstd::prelude::*;

use crate::text::{chars_of, utf8_len};

verus! {

/// The text of a key: a single ASCII character, or any other text.
#[derive(Clone, Debug, PartialEq, Eq, Hash)]
pub enum TextKey {
    Single(char),
    Multi(String),
}

/// What a cached glyph run was shaped from. `font_size_bits` holds the bit
/// pattern of the font size.
#[derive(Clone, Debug, PartialEq, Eq, Hash)]
pub struct GlyphCacheKey {
    pub text: TextKey,
    pub bold: bool,
    pub italic: bool,
    pub underline: bool,
    pub font_size_bits: u32,
}

/// `text` is the single character `ch`.
pub fn text_is_single_char(text: &str, ch: char) -> (r: bool)
    ensures
        r == (text@ == seq![ch]),
{
    let chars = chars_of(text);
    let r = chars.len() == 1 && chars[0] == ch;
    assert(r ==> chars@ =~= seq![ch]);
    r
}

/// The text a key stands for.
pub open spec fn key_text(k: TextKey) -> Seq<char> {
    match k {
        TextKey::Single(c) => seq![c],
        TextKey::Multi(s) => s@,
    }
}

impl TextKey {
    /// Two text keys match when they stand for the same text.
    pub fn matches(&self, other: &TextKey) -> (r: bool)
        ensures
            r == (key_text(*self) == key_text(*other)),
    {
        match (self, other) {
            (TextKey::Single(a), TextKey::Single(b)) => {
                if *a != *b {
                    assert(seq![*a][0] != seq![*b][0]);
                }
                *a == *b
            },
            (TextKey::Multi(a), TextKey::Multi(b)) => *a == *b,
            (TextKey::Single(a), TextKey::Multi(b)) => text_is_single_char(b.as_str(), *a),
            (TextKey::Multi(a), TextKey::Single(b)) => text_is_single_char(a.as_str(), *b),
        }
    }
}

impl GlyphCacheKey {
    /// The key of a text in a style and font size: a text of one byte (one
    /// ASCII character) is kept as that character.
    pub fn new(text: &str, bold: bool, italic: bool, underline: bool, font_size_bits: u32) -> (r: Self)
        ensures
            key_text(r.text) == text@,
            r.text is Single <==> utf8_len(text@) == 1,
            r.bold == bold,
            r.italic == italic,
            r.underline == underline,
            r.font_size_bits == font_size_bits,
    {
        let chars = chars_of(text);
        let one_byte = chars.len() == 1 && (chars[0] as u32) < 0x80;
        proof {
            if chars@.len() == 1 {
                assert(chars@.drop_last() =~= Seq::<char>::empty());
                assert(utf8_len(chars@.drop_last()) == 0);
                assert(chars@.last() == chars@[0]);
                assert(utf8_len(chars@) == crate::text::utf8_width(chars@[0]));
            }
            if chars@.len() == 0 {
                assert(utf8_len(chars@) == 0);
            }
            if chars@.len() >= 2 {
                crate::config::lemma_utf8_len_lower(chars@);
            }
        }
        let key = if one_byte {
            assert(text@ =~= seq![chars@[0]]);
            TextKey::Single(chars[0])
        } else {
            TextKey::Multi(text.to_owned())
        };
        GlyphCacheKey { text: key, bold, italic, underline, font_size_bits }
    }

    /// Keys match when their texts match and all else is equal.
    pub fn matches(&self, other: &GlyphCacheKey) -> (r: bool)
        ensures
            r == (key_text(self.text) == key_text(other.text) && self.bold == other.bold && self.italic
                == other.italic && self.underline == other.underline && self.font_size_bits
                == other.font_size_bits),
    {
        self.text.matches(&other.text) && self.bold == other.bold && self.italic == other.italic
            && self.underline == other.underline && self.font_size_bits == other.font_size_bits
    }
}

} // verus!
