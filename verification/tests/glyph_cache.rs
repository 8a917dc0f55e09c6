use sherion::glyph_cache::{text_is_single_char, GlyphCacheKey, TextKey};

#[test]
fn single_ascii_characters_are_kept_as_characters() {
    let a = GlyphCacheKey::new("a", false, false, false, 7);
    assert_eq!(a.text, TextKey::Single('a'));
    let e = GlyphCacheKey::new("é", true, false, false, 7);
    assert_eq!(e.text, TextKey::Multi("é".to_owned()));
    let ab = GlyphCacheKey::new("ab", false, false, false, 7);
    assert_eq!(ab.text, TextKey::Multi("ab".to_owned()));
}

#[test]
fn keys_match_by_text_and_style() {
    let single = GlyphCacheKey::new("x", false, true, false, 1);
    let mut multi = single.clone();
    multi.text = TextKey::Multi("x".to_owned());
    assert!(single.matches(&multi));
    let bold = GlyphCacheKey::new("x", true, true, false, 1);
    assert!(!single.matches(&bold));
    assert!(text_is_single_char("q", 'q'));
    assert!(!text_is_single_char("qq", 'q'));
    assert!(!text_is_single_char("", 'q'));
}
