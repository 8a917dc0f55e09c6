//! What pasted text becomes before it reaches the terminal.

use vstd::prelude::*;

use crate::text::{chars_of, string_from_chars};

verus! {

/// Line endings unified: each `\r\n` becomes `\n`, then each remaining `\r`
/// becomes `\n`.
pub open spec fn unified_newlines(s: Seq<char>) -> Seq<char>
    decreases s.len(),
{
    if s.len() == 0 {
        Seq::empty()
    } else if s[0] == '\r' && s.len() >= 2 && s[1] == '\n' {
        seq!['\n'] + unified_newlines(s.skip(2))
    } else if s[0] == '\r' {
        seq!['\n'] + unified_newlines(s.skip(1))
    } else {
        seq![s[0]] + unified_newlines(s.skip(1))
    }
}

/// The control characters (general category Cc): U+0000 to U+001F and
/// U+007F to U+009F.
pub open spec fn is_control(c: char) -> bool {
    (c as u32) <= 0x1f || (0x7f <= (c as u32) && (c as u32) <= 0x9f)
}

/// A character that pasting keeps: newline, tab, or no control character.
pub open spec fn paste_keeps(c: char) -> bool {
    c == '\n' || c == '\t' || !is_control(c)
}

/// `s` without the characters that pasting drops.
pub open spec fn paste_filtered(s: Seq<char>) -> Seq<char>
    decreases s.len(),
{
    if s.len() == 0 {
        Seq::empty()
    } else if paste_keeps(s.last()) {
        paste_filtered(s.drop_last()).push(s.last())
    } else {
        paste_filtered(s.drop_last())
    }
}

fn char_is_control(c: char) -> (r: bool)
    ensures
        r == is_control(c),
{
    let v = c as u32;
    v <= 0x1f || (0x7f <= v && v <= 0x9f)
}

proof fn lemma_filtered_append(a: Seq<char>, b: Seq<char>)
    ensures
        paste_filtered(a + b) == paste_filtered(a) + paste_filtered(b),
    decreases b.len(),
{
    if b.len() == 0 {
        assert(a + b =~= a);
        assert(paste_filtered(a) + paste_filtered(b) =~= paste_filtered(a));
    } else {
        assert((a + b).drop_last() =~= a + b.drop_last());
        lemma_filtered_append(a, b.drop_last());
        if paste_keeps(b.last()) {
            assert(paste_filtered(a) + paste_filtered(b) =~= (paste_filtered(a) + paste_filtered(
                b.drop_last(),
            )).push(b.last()));
        }
    }
}

/// What pasting keeps holds no control character but newline and tab,
/// and no carriage return.
pub proof fn lemma_filtered_clean(s: Seq<char>)
    ensures
        forall|i: int| 0 <= i < paste_filtered(s).len() ==> paste_keeps(#[trigger] paste_filtered(s)[i])
            && paste_filtered(s)[i] != '\r',
    decreases s.len(),
{
    if s.len() > 0 {
        lemma_filtered_clean(s.drop_last());
        let prev = paste_filtered(s.drop_last());
        if paste_keeps(s.last()) {
            assert forall|i: int| 0 <= i < paste_filtered(s).len() implies paste_keeps(
                #[trigger] paste_filtered(s)[i],
            ) && paste_filtered(s)[i] != '\r' by {
                if i < prev.len() {
                    assert(paste_filtered(s)[i] == prev[i]);
                }
            }
        }
    }
}

/// Strips dangerous control characters from pasted text: line endings are
/// unified to `\n`, and of the control characters only newline and tab stay.
pub fn sanitize_paste(text: &str) -> (r: String)
    ensures
        r@ == paste_filtered(unified_newlines(text@)),
        forall|i: int| 0 <= i < r@.len() ==> paste_keeps(#[trigger] r@[i]) && r@[i] != '\r',
{
    let s = chars_of(text);
    let mut out: Vec<char> = Vec::new();
    let mut i: usize = 0;
    assert(s@.skip(0) =~= s@);
    while i < s.len()
        invariant
            i <= s@.len(),
            paste_filtered(unified_newlines(text@)) == out@ + paste_filtered(unified_newlines(s@.skip(i as int))),
            s@ == text@,
        decreases s@.len() - i,
    {
        let ghost rest = s@.skip(i as int);
        let c = s[i];
        let step: usize = if c == '\r' && i + 1 < s.len() && s[i + 1] == '\n' { 2 } else { 1 };
        let u = if c == '\r' { '\n' } else { c };
        assert(unified_newlines(rest) == seq![u] + unified_newlines(rest.skip(step as int)));
        assert(rest.skip(step as int) =~= s@.skip(i + step));
        proof {
            lemma_filtered_append(seq![u], unified_newlines(s@.skip(i + step)));
            assert(seq![u].drop_last() =~= Seq::<char>::empty());
        }
        assert(seq![u].last() == u);
        assert(paste_filtered(seq![u]) == (if paste_keeps(u) {
            paste_filtered(seq![u].drop_last()).push(u)
        } else {
            paste_filtered(seq![u].drop_last())
        }));
        assert(paste_filtered(Seq::<char>::empty()) == Seq::<char>::empty());
        if u == '\n' || u == '\t' || !char_is_control(u) {
            out.push(u);
            assert(paste_filtered(seq![u]) =~= seq![u]);
        } else {
            assert(paste_filtered(seq![u]) =~= Seq::<char>::empty());
        }
        i = i + step;
    }
    assert(s@.skip(i as int) =~= Seq::<char>::empty());
    assert(out@ + paste_filtered(Seq::<char>::empty()) =~= out@);
    proof {
        lemma_filtered_clean(unified_newlines(text@));
    }
    string_from_chars(&out)
}

pub open spec fn paste_start() -> Seq<char> {
    seq!['\u{1b}', '[', '2', '0', '0', '~']
}

pub open spec fn paste_end() -> Seq<char> {
    seq!['\u{1b}', '[', '2', '0', '1', '~']
}

/// What a paste sends to the terminal: the text (sanitized when the
/// configuration asks for it), between the bracketed-paste markers when the
/// terminal asked for them; nothing for empty text.
pub open spec fn paste_payload_spec(text: Seq<char>, sanitize: bool, bracketed: bool) -> Option<Seq<char>> {
    let t = if sanitize { paste_filtered(unified_newlines(text)) } else { text };
    if t.len() == 0 {
        None
    } else if bracketed {
        Some(paste_start() + t + paste_end())
    } else {
        Some(t)
    }
}

pub fn paste_payload(text: &str, sanitize: bool, bracketed: bool) -> (r: Option<String>)
    ensures
        match paste_payload_spec(text@, sanitize, bracketed) {
            Some(p) => r matches Some(s) && s@ == p,
            None => r is None,
        },
{
    let t: Vec<char> = if sanitize {
        let s = sanitize_paste(text);
        chars_of(s.as_str())
    } else {
        chars_of(text)
    };
    if t.len() == 0 {
        return None;
    }
    if !bracketed {
        return Some(string_from_chars(&t));
    }
    let mut out: Vec<char> = Vec::new();
    out.push('\u{1b}');
    out.push('[');
    out.push('2');
    out.push('0');
    out.push('0');
    out.push('~');
    let mut i: usize = 0;
    while i < t.len()
        invariant
            i <= t@.len(),
            out@ == paste_start() + t@.take(i as int),
        decreases t@.len() - i,
    {
        out.push(t[i]);
        i += 1;
        assert(out@ =~= paste_start() + t@.take(i as int));
    }
    out.push('\u{1b}');
    out.push('[');
    out.push('2');
    out.push('0');
    out.push('1');
    out.push('~');
    assert(t@.take(t@.len() as int) =~= t@);
    assert(out@ =~= paste_start() + t@ + paste_end());
    Some(string_from_chars(&out))
}

} // verus!
