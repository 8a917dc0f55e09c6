//! URL detection in the terminal grid: explicit OSC 8 hyperlinks, and URLs
//! recognised in the text, also when a URL wraps onto the next row.

use vstd::prelude::*;

use crate::search::SearchMatch;
use crate::text::{
    char_is_whitespace, chars_of, find_chars_from, is_white_space, occurs_at,
    seq_starts_with, slice_chars, string_from_chars,
};

verus! {

/// Characters that end a sentence rather than a URL.
pub open spec fn is_url_trail(c: char) -> bool {
    c == '.' || c == ',' || c == ')' || c == ']'
}

/// `s` without trailing `.` `,` `)` `]`.
pub open spec fn trim_url_end(s: Seq<char>) -> Seq<char>
    decreases s.len(),
{
    if s.len() > 0 && is_url_trail(s.last()) {
        trim_url_end(s.drop_last())
    } else {
        s
    }
}

pub open spec fn www_prefix() -> Seq<char> {
    seq!['w', 'w', 'w', '.']
}

pub open spec fn https_scheme() -> Seq<char> {
    seq!['h', 't', 't', 'p', 's', ':', '/', '/']
}

/// A detected URL as it is opened: trailing punctuation dropped, and a bare
/// `www.` address given the `https://` scheme.
pub open spec fn normalized_url(url: Seq<char>) -> Seq<char> {
    let t = trim_url_end(url);
    if seq_starts_with(t, www_prefix()) {
        https_scheme() + t
    } else {
        t
    }
}

/// First position at or after `from` where `pat` occurs, or -1.
pub open spec fn first_occurrence(text: Seq<char>, pat: Seq<char>, from: int) -> int
    decreases text.len() + 1 - from,
{
    if from < 0 || from > text.len() {
        -1
    } else if occurs_at(text, pat, from) {
        from
    } else {
        first_occurrence(text, pat, from + 1)
    }
}

/// First white-space position at or after `from`, or `text.len()`.
pub open spec fn first_space_from(text: Seq<char>, from: int) -> int
    decreases text.len() - from,
{
    if from < 0 || from >= text.len() {
        text.len() as int
    } else if is_white_space(text[from]) {
        from
    } else {
        first_space_from(text, from + 1)
    }
}

/// Scanning `text` from `from` for URLs that start with `pat`: each runs up
/// to the next white space, minus trailing punctuation; the first one that
/// covers character `target` gives its character range and normalized text.
/// (Each step starts past the previous candidate, so the scan always advances.)
pub open spec fn url_scan(text: Seq<char>, pat: Seq<char>, from: int, target: int) -> Option<(int, int, Seq<char>)>
    decreases text.len() - from,
{
    let start = first_occurrence(text, pat, from);
    if start < 0 || from < 0 {
        None
    } else {
        let raw_len = first_space_from(text, start) - start;
        let trimmed = trim_url_end(text.subrange(start, start + raw_len));
        let end = start + trimmed.len();
        if start <= target < end {
            Some((start, end, normalized_url(trimmed)))
        } else {
            let next = start + if raw_len > 1 { raw_len } else { 1 };
            if next >= text.len() || next <= from {
                None
            } else {
                url_scan(text, pat, next, target)
            }
        }
    }
}

/// The URL covering character `target` of `text`: schemes `https://`,
/// `http://`, `file://`, `mailto:` are tried in that order, then bare `www.`.
pub open spec fn url_in_text(text: Seq<char>, target: int) -> Option<(int, int, Seq<char>)> {
    let a = url_scan(text, https_scheme(), 0, target);
    let b = url_scan(text, seq!['h', 't', 't', 'p', ':', '/', '/'], 0, target);
    let c = url_scan(text, seq!['f', 'i', 'l', 'e', ':', '/', '/'], 0, target);
    let d = url_scan(text, seq!['m', 'a', 'i', 'l', 't', 'o', ':'], 0, target);
    if a is Some {
        a
    } else if b is Some {
        b
    } else if c is Some {
        c
    } else if d is Some {
        d
    } else {
        url_scan(text, www_prefix(), 0, target)
    }
}

/// `first_occurrence` is the first position of `pat` at or after `from`.
pub proof fn lemma_first_occurrence(text: Seq<char>, pat: Seq<char>, from: int, found: int)
    requires
        0 <= from <= text.len(),
        found == -1 ==> forall|k: int| from <= k ==> !occurs_at(text, pat, k),
        found != -1 ==> from <= found && occurs_at(text, pat, found) && forall|k: int|
            from <= k < found ==> !occurs_at(text, pat, k),
    ensures
        first_occurrence(text, pat, from) == found,
    decreases text.len() + 1 - from,
{
    if occurs_at(text, pat, from) {
        assert(found != -1);
    } else if from + 1 <= text.len() {
        if found != -1 {
            assert(found != from);
        }
        lemma_first_occurrence(text, pat, from + 1, found);
    } else {
        assert(first_occurrence(text, pat, from + 1) == -1);
        if found != -1 {
            assert(found + pat.len() <= text.len());
            assert(found == from);
        }
    }
}

/// What trimming leaves does not end in trailing punctuation.
pub proof fn lemma_trim_url_end_clean(s: Seq<char>)
    ensures
        trim_url_end(s).len() > 0 ==> !is_url_trail(trim_url_end(s).last()),
    decreases s.len(),
{
    if s.len() > 0 && is_url_trail(s.last()) {
        lemma_trim_url_end_clean(s.drop_last());
    }
}

/// A detected URL, once normalized, normalizes to itself.
pub proof fn lemma_normalized_url_idempotent(url: Seq<char>)
    ensures
        normalized_url(normalized_url(url)) == normalized_url(url),
{
    let t = trim_url_end(url);
    lemma_trim_url_end_idempotent(url);
    if seq_starts_with(t, www_prefix()) {
        let n = https_scheme() + t;
        assert(t.len() >= 4);
        lemma_trim_url_end_clean(url);
        assert(!(t.len() > 0 && is_url_trail(t.last())));
        assert(n.last() == t.last());
        assert(trim_url_end(n) == n);
        assert(n.take(4) =~= seq!['h', 't', 't', 'p']);
        assert(!seq_starts_with(n, www_prefix())) by {
            assert(n.take(4)[0] != www_prefix()[0]);
        }
    }
}

fn is_url_trail_char(c: char) -> (r: bool)
    ensures
        r == is_url_trail(c),
{
    c == '.' || c == ',' || c == ')' || c == ']'
}

/// Length of `s[..len]` once trailing punctuation is dropped.
fn trimmed_url_len(s: &[char], start: usize, len: usize) -> (r: usize)
    requires
        start + len <= s@.len(),
    ensures
        r <= len,
        s@.subrange(start as int, start + r) == trim_url_end(s@.subrange(start as int, start + len)),
{
    let total = s.len();
    let mut n = len;
    while n > 0
        invariant
            n <= len,
            s@.len() == total,
            start + len <= s@.len(),
            trim_url_end(s@.subrange(start as int, start + len)) == trim_url_end(s@.subrange(start as int, start + n)),
        decreases n,
    {
        if !is_url_trail_char(s[start + (n - 1)]) {
            return n;
        }
        assert(s@.subrange(start as int, start + n).drop_last() =~= s@.subrange(start as int, start + n - 1));
        n -= 1;
    }
    n
}

fn normalize_chars(url: &[char]) -> (r: Vec<char>)
    ensures
        r@ == normalized_url(url@),
{
    let n = trimmed_url_len(url, 0, url.len());
    assert(url@.subrange(0, url@.len() as int) =~= url@);
    let t = slice_chars(url, 0, n);
    let www = ['w', 'w', 'w', '.'];
    assert(www@ =~= www_prefix());
    if crate::text::chars_start_with(&t, &www) {
        let mut out: Vec<char> = Vec::new();
        out.push('h');
        out.push('t');
        out.push('t');
        out.push('p');
        out.push('s');
        out.push(':');
        out.push('/');
        out.push('/');
        let ghost head = out@;
        assert(head =~= https_scheme());
        let mut i: usize = 0;
        while i < t.len()
            invariant
                i <= t@.len(),
                out@ == head + t@.take(i as int),
            decreases t@.len() - i,
        {
            out.push(t[i]);
            i += 1;
            assert(head + t@.take(i as int) =~= (head + t@.take(i - 1)).push(t@[i - 1]));
        }
        assert(t@.take(t@.len() as int) =~= t@);
        out
    } else {
        t
    }
}

/// Normalizes a detected URL (see `normalized_url`).
pub fn normalize_detected_url(url: &str) -> (r: String)
    ensures
        r@ == normalized_url(url@),
{
    let chars = chars_of(url);
    let n = normalize_chars(&chars);
    string_from_chars(&n)
}

fn space_from(s: &[char], from: usize) -> (r: usize)
    requires
        from <= s@.len(),
    ensures
        r == first_space_from(s@, from as int),
        from <= r <= s@.len(),
{
    let mut i = from;
    while i < s.len() && !char_is_whitespace(s[i])
        invariant
            from <= i <= s@.len(),
            first_space_from(s@, from as int) == first_space_from(s@, i as int),
        decreases s@.len() - i,
    {
        i += 1;
    }
    i
}

/// One scheme's scan (see `url_scan`).
fn scan_for(text: &[char], pat: &[char], target: usize) -> (r: Option<(usize, usize, Vec<char>)>)
    requires
        pat@.len() > 0,
        !is_white_space(pat@[0]),
    ensures
        match r {
            Some((s, e, u)) => url_scan(text@, pat@, 0, target as int) == Some((s as int, e as int, u@)),
            None => url_scan(text@, pat@, 0, target as int) is None,
        },
{
    let mut search_from: usize = 0;
    while search_from <= text.len()
        invariant
            pat@.len() > 0,
            !is_white_space(pat@[0]),
            url_scan(text@, pat@, 0, target as int) == url_scan(text@, pat@, search_from as int, target as int),
        decreases text@.len() + 1 - search_from,
    {
        let found = find_chars_from(text, pat, search_from);
        let start = match found {
            Some(i) => i,
            None => {
                proof {
                    lemma_first_occurrence(text@, pat@, search_from as int, -1);
                }
                return None;
            },
        };
        proof {
            lemma_first_occurrence(text@, pat@, search_from as int, start as int);
            assert(text@.subrange(start as int, start + pat@.len())[0] == pat@[0]);
        }
        let space = space_from(text, start);
        let raw_len = space - start;
        assert(raw_len >= 1) by {
            assert(text@[start as int] == pat@[0]);
            assert(start < text@.len());
            assert(first_space_from(text@, start as int) == first_space_from(text@, start + 1));
            lemma_first_space_bounds(text@, start + 1);
        }
        let n = trimmed_url_len(text, start, raw_len);
        let end = start + n;
        if target >= start && target < end {
            let raw = slice_chars(text, start, end);
            let url = normalize_chars(&raw);
            proof {
                assert(trim_url_end(raw@) == raw@) by {
                    lemma_trim_url_end_idempotent(text@.subrange(start as int, start + raw_len));
                }
            }
            return Some((start, end, url));
        }
        let next = start + raw_len;
        if next >= text.len() {
            return None;
        }
        search_from = next;
    }
    None
}

/// The first white space at or after `from` lies in `[from, len]`.
pub proof fn lemma_first_space_bounds(text: Seq<char>, from: int)
    requires
        0 <= from <= text.len(),
    ensures
        from <= first_space_from(text, from) <= text.len(),
    decreases text.len() - from,
{
    if from < text.len() && !is_white_space(text[from]) {
        lemma_first_space_bounds(text, from + 1);
    }
}

/// Dropping trailing punctuation twice is dropping it once.
pub proof fn lemma_trim_url_end_idempotent(s: Seq<char>)
    ensures
        trim_url_end(trim_url_end(s)) == trim_url_end(s),
    decreases s.len(),
{
    if s.len() > 0 && is_url_trail(s.last()) {
        lemma_trim_url_end_idempotent(s.drop_last());
    }
}

/// Finds the URL covering character `target_index` of `text`: its character
/// range `[start, end)` and its normalized form.
pub fn find_url_in_text(text: &str, target_index: usize) -> (r: Option<(usize, usize, String)>)
    ensures
        match r {
            Some((s, e, u)) => url_in_text(text@, target_index as int) == Some((s as int, e as int, u@)),
            None => url_in_text(text@, target_index as int) is None,
        },
{
    let chars = chars_of(text);
    match find_url_in_chars(&chars, target_index) {
        Some((s, e, u)) => Some((s, e, string_from_chars(&u))),
        None => None,
    }
}

fn find_url_in_chars(text: &[char], target_index: usize) -> (r: Option<(usize, usize, Vec<char>)>)
    ensures
        match r {
            Some((s, e, u)) => url_in_text(text@, target_index as int) == Some((s as int, e as int, u@)),
            None => url_in_text(text@, target_index as int) is None,
        },
{
    let https = ['h', 't', 't', 'p', 's', ':', '/', '/'];
    let http = ['h', 't', 't', 'p', ':', '/', '/'];
    let file = ['f', 'i', 'l', 'e', ':', '/', '/'];
    let mailto = ['m', 'a', 'i', 'l', 't', 'o', ':'];
    let www = ['w', 'w', 'w', '.'];
    assert(https@ =~= https_scheme());
    assert(http@ =~= seq!['h', 't', 't', 'p', ':', '/', '/']);
    assert(file@ =~= seq!['f', 'i', 'l', 'e', ':', '/', '/']);
    assert(mailto@ =~= seq!['m', 'a', 'i', 'l', 't', 'o', ':']);
    assert(www@ =~= www_prefix());
    if let Some(r) = scan_for(text, &https, target_index) {
        return Some(r);
    }
    if let Some(r) = scan_for(text, &http, target_index) {
        return Some(r);
    }
    if let Some(r) = scan_for(text, &file, target_index) {
        return Some(r);
    }
    if let Some(r) = scan_for(text, &mailto, target_index) {
        return Some(r);
    }
    scan_for(text, &www, target_index)
}


/// `http://`.
pub open spec fn http_scheme() -> Seq<char> {
    seq!['h', 't', 't', 'p', ':', '/', '/']
}

/// The first white space at or after `from` is the first white space of a
/// run of other characters from `from` to `w`.
proof fn lemma_first_space_is_run_end(text: Seq<char>, from: int, w: int)
    requires
        0 <= from <= w <= text.len(),
        forall|k: int| from <= k < w ==> !is_white_space(#[trigger] text[k]),
        w == text.len() || is_white_space(text[w]),
    ensures
        first_space_from(text, from) == w,
    decreases w - from,
{
    if from < w {
        lemma_first_space_is_run_end(text, from + 1, w);
    }
}

/// The first white space at or after `from` comes no later than any white
/// space at or after `from`.
proof fn lemma_first_space_at_most(text: Seq<char>, from: int, k: int)
    requires
        0 <= from <= k < text.len(),
        is_white_space(text[k]),
    ensures
        first_space_from(text, from) <= k,
    decreases k - from,
{
    if from < k && !is_white_space(text[from]) {
        lemma_first_space_at_most(text, from + 1, k);
    }
}

/// Dropping trailing punctuation never lengthens.
proof fn lemma_trim_url_end_shorter(s: Seq<char>)
    ensures
        trim_url_end(s).len() <= s.len(),
    decreases s.len(),
{
    if s.len() > 0 && is_url_trail(s.last()) {
        lemma_trim_url_end_shorter(s.drop_last());
    }
}

/// Trailing punctuation from `e` to `w`, after a character that is not
/// punctuation, is what trimming drops.
proof fn lemma_trim_url_end_run(text: Seq<char>, s: int, e: int, w: int)
    requires
        0 <= s < e <= w <= text.len(),
        forall|k: int| e <= k < w ==> is_url_trail(#[trigger] text[k]),
        !is_url_trail(text[e - 1]),
    ensures
        trim_url_end(text.subrange(s, w)) == text.subrange(s, e),
    decreases w - e,
{
    if e < w {
        assert(text.subrange(s, w).drop_last() =~= text.subrange(s, w - 1));
        assert(text.subrange(s, w).last() == text[w - 1]);
        lemma_trim_url_end_run(text, s, e, w - 1);
    } else {
        assert(text.subrange(s, w).last() == text[e - 1]);
    }
}

/// Scanning from `from` for `pat` reaches the occurrence at `s` when `s`
/// starts a word: every earlier candidate ends at the white space before
/// `s`, so it neither covers `target` nor hides `s`.
proof fn lemma_scan_reaches_word(
    text: Seq<char>,
    pat: Seq<char>,
    from: int,
    s: int,
    e: int,
    w: int,
    target: int,
)
    requires
        pat.len() > 0,
        !is_white_space(pat[0]),
        0 <= from <= s,
        occurs_at(text, pat, s),
        s == 0 || is_white_space(text[s - 1]),
        s <= target < e <= w <= text.len(),
        forall|k: int| s <= k < w ==> !is_white_space(#[trigger] text[k]),
        w == text.len() || is_white_space(text[w]),
        forall|k: int| e <= k < w ==> is_url_trail(#[trigger] text[k]),
        !is_url_trail(text[e - 1]),
    ensures
        url_scan(text, pat, from, target) == Some((s, e, normalized_url(text.subrange(s, e)))),
    decreases s - from,
{
    let p = first_occurrence(text, pat, from);
    if p == s {
        lemma_first_space_is_run_end(text, s, w);
        lemma_trim_url_end_run(text, s, e, w);
    } else {
        // Some occurrence comes first, at `p` in [from, s).
        lemma_first_occurrence_at_most(text, pat, from, s);
        assert(from <= p < s);
        assert(text.subrange(p, p + pat.len())[0] == pat[0]);
        assert(!is_white_space(text[p]));
        lemma_first_space_bounds(text, p + 1);
        assert(first_space_from(text, p) == first_space_from(text, p + 1));
        lemma_first_space_at_most(text, p, s - 1);
        let raw_len = first_space_from(text, p) - p;
        lemma_trim_url_end_shorter(text.subrange(p, p + raw_len));
        let next = p + raw_len;
        assert(from < next <= s - 1);
        lemma_scan_reaches_word(text, pat, next, s, e, w, target);
    }
}

/// `first_occurrence` from `from` finds `pat` no later than an occurrence at `s`.
proof fn lemma_first_occurrence_at_most(text: Seq<char>, pat: Seq<char>, from: int, s: int)
    requires
        0 <= from <= s,
        occurs_at(text, pat, s),
    ensures
        from <= first_occurrence(text, pat, from) <= s,
        occurs_at(text, pat, first_occurrence(text, pat, from)),
    decreases s - from,
{
    if !occurs_at(text, pat, from) {
        lemma_first_occurrence_at_most(text, pat, from + 1, s);
    }
}

/// An `http://` URL that starts a word of a text without `https://` is
/// detected under every character it covers: it runs to the next white
/// space, without trailing `.` `,` `)` `]`, and is opened as it stands.
pub proof fn lemma_http_url_detected(text: Seq<char>, s: int, e: int, w: int, target: int)
    requires
        occurs_at(text, http_scheme(), s),
        s == 0 || is_white_space(text[s - 1]),
        s <= target < e <= w <= text.len(),
        forall|k: int| s <= k < w ==> !is_white_space(#[trigger] text[k]),
        w == text.len() || is_white_space(text[w]),
        forall|k: int| e <= k < w ==> is_url_trail(#[trigger] text[k]),
        !is_url_trail(text[e - 1]),
        forall|k: int| !occurs_at(text, https_scheme(), k),
    ensures
        url_in_text(text, target) == Some((s, e, text.subrange(s, e))),
{
    lemma_first_occurrence(text, https_scheme(), 0, -1);
    assert(http_scheme()[0] == 'h');
    lemma_scan_reaches_word(text, http_scheme(), 0, s, e, w, target);
    let u = text.subrange(s, e);
    assert(u[0] == text.subrange(s, s + 7)[0]);
    assert(trim_url_end(u) == u);
    assert(!seq_starts_with(u, www_prefix())) by {
        if seq_starts_with(u, www_prefix()) {
            assert(u.take(4)[0] == 'w');
        }
    }
}

} // verus!

verus! {

/// An OSC 8 hyperlink attached to a cell: its link id and its target.
#[derive(Debug, Clone)]
pub struct CellLink {
    pub id: String,
    pub uri: String,
}

/// One grid cell as the link detector reads it: its column, its character,
/// whether the line wraps after it, and its explicit hyperlink, if any.
#[derive(Debug, Clone)]
pub struct GridCell {
    pub column: usize,
    pub c: char,
    pub wrapline: bool,
    pub hyperlink: Option<CellLink>,
}

/// The text of a row `n` columns wide: each column holds the character of
/// the last cell placed there, or a space.
pub open spec fn row_text(cells: Seq<GridCell>, n: nat) -> Seq<char>
    decreases cells.len(),
{
    if cells.len() == 0 {
        Seq::new(n, |j: int| ' ')
    } else {
        let prev = row_text(cells.drop_last(), n);
        let c = cells.last();
        if c.column < n {
            prev.update(c.column as int, c.c)
        } else {
            prev
        }
    }
}

/// Some cell of the row carries the wrap-line flag.
pub open spec fn row_wraps(cells: Seq<GridCell>) -> bool {
    exists|i: int| 0 <= i < cells.len() && (#[trigger] cells[i]).wrapline
}

/// Row `curr` continues row `prev`: both exist, and `prev` either wraps or
/// has a non-blank character in its last column.
pub open spec fn rows_join(rows: Seq<Vec<GridCell>>, n: nat, prev: int, curr: int) -> bool {
    &&& 0 <= prev < rows.len()
    &&& 0 <= curr < rows.len()
    &&& (row_wraps(rows[prev]@) || {
        let t = row_text(rows[prev]@, n);
        let k = if n > 0 { n - 1 } else { 0 };
        k < t.len() && !is_white_space(t[k])
    })
}

/// Text and cell positions with trailing spaces removed from both.
pub open spec fn trim_trailing(text: Seq<char>, map: Seq<(usize, usize)>) -> (Seq<char>, Seq<(usize, usize)>)
    decreases text.len(),
{
    if text.len() > 0 && text.last() == ' ' {
        trim_trailing(text.drop_last(), map.drop_last())
    } else {
        (text, map)
    }
}

/// Number of leading spaces of `t`, counted from `i`.
pub open spec fn lead_spaces(t: Seq<char>, i: int) -> int
    decreases t.len() - i,
{
    if 0 <= i < t.len() && t[i] == ' ' {
        lead_spaces(t, i + 1)
    } else {
        i
    }
}

/// Appends the characters of `t` from `skip` on, each mapped to its cell
/// `(row, column)`.
pub open spec fn append_row(
    state: (Seq<char>, Seq<(usize, usize)>),
    t: Seq<char>,
    row: usize,
    skip: int,
) -> (Seq<char>, Seq<(usize, usize)>) {
    (
        state.0 + t.skip(skip),
        state.1 + Seq::new((t.len() - skip) as nat, |j: int| (row, (skip + j) as usize)),
    )
}

/// The text of the first `k` rows of the window starting at `ws`, with the
/// cell of each character: a later row is appended only when it continues
/// the row above it, which then loses its trailing spaces while the later
/// row loses its leading ones.
pub open spec fn combined_rows(rows: Seq<Vec<GridCell>>, n: nat, ws: int, k: nat) -> (Seq<char>, Seq<(usize, usize)>)
    decreases k,
{
    if k == 0 {
        (Seq::empty(), Seq::empty())
    } else {
        let prev = combined_rows(rows, n, ws, (k - 1) as nat);
        let r = ws + k - 1;
        if r >= rows.len() {
            prev
        } else {
            let t = row_text(rows[r]@, n);
            if r > ws {
                if !rows_join(rows, n, r - 1, r) {
                    prev
                } else {
                    append_row(trim_trailing(prev.0, prev.1), t, r as usize, lead_spaces(t, 0))
                }
            } else {
                append_row(prev, t, r as usize, 0)
            }
        }
    }
}

pub proof fn lemma_row_text_len(cells: Seq<GridCell>, n: nat)
    ensures
        row_text(cells, n).len() == n,
    decreases cells.len(),
{
    if cells.len() > 0 {
        lemma_row_text_len(cells.drop_last(), n);
    }
}

proof fn lemma_lead_spaces_bounds(t: Seq<char>, i: int)
    requires
        0 <= i <= t.len(),
    ensures
        i <= lead_spaces(t, i) <= t.len(),
    decreases t.len() - i,
{
    if i < t.len() && t[i] == ' ' {
        lemma_lead_spaces_bounds(t, i + 1);
    }
}

/// The row's text, `n` columns wide (see `row_text`).
fn row_as_chars(cells: &Vec<GridCell>, n: usize) -> (r: Vec<char>)
    ensures
        r@ == row_text(cells@, n as nat),
{
    let mut chars: Vec<char> = Vec::new();
    let mut j: usize = 0;
    while j < n
        invariant
            j <= n,
            chars@ == Seq::new(j as nat, |x: int| ' '),
        decreases n - j,
    {
        chars.push(' ');
        j += 1;
        assert(chars@ =~= Seq::new(j as nat, |x: int| ' '));
    }
    assert(cells@.take(0) =~= Seq::<GridCell>::empty());
    let mut i: usize = 0;
    while i < cells.len()
        invariant
            i <= cells@.len(),
            chars@ == row_text(cells@.take(i as int), n as nat),
        decreases cells@.len() - i,
    {
        proof {
            lemma_row_text_len(cells@.take(i as int), n as nat);
            assert(cells@.take(i + 1).drop_last() =~= cells@.take(i as int));
        }
        let col = cells[i].column;
        if col < n {
            chars.set(col, cells[i].c);
        }
        i += 1;
    }
    assert(cells@.take(cells@.len() as int) =~= cells@);
    chars
}

fn row_has_wrapline(cells: &Vec<GridCell>) -> (r: bool)
    ensures
        r == row_wraps(cells@),
{
    let mut i: usize = 0;
    while i < cells.len()
        invariant
            i <= cells@.len(),
            forall|k: int| 0 <= k < i ==> !(#[trigger] cells@[k]).wrapline,
        decreases cells@.len() - i,
    {
        if cells[i].wrapline {
            return true;
        }
        i += 1;
    }
    false
}

fn rows_should_join(rows: &[Vec<GridCell>], n: usize, prev: usize, curr: usize) -> (r: bool)
    ensures
        r == rows_join(rows@, n as nat, prev as int, curr as int),
{
    if prev >= rows.len() || curr >= rows.len() {
        return false;
    }
    if row_has_wrapline(&rows[prev]) {
        return true;
    }
    let t = row_as_chars(&rows[prev], n);
    proof {
        lemma_row_text_len(rows@[prev as int]@, n as nat);
    }
    let k = if n > 0 { n - 1 } else { 0 };
    k < t.len() && !char_is_whitespace(t[k])
}

fn trim_trailing_spaces(text: &mut Vec<char>, map: &mut Vec<(usize, usize)>)
    requires
        old(text)@.len() == old(map)@.len(),
    ensures
        (final(text)@, final(map)@) == trim_trailing(old(text)@, old(map)@),
        final(text)@.len() == final(map)@.len(),
{
    while text.len() > 0 && text[text.len() - 1] == ' '
        invariant
            text@.len() == map@.len(),
            trim_trailing(text@, map@) == trim_trailing(old(text)@, old(map)@),
        decreases text@.len(),
    {
        text.pop();
        map.pop();
    }
}


proof fn lemma_trim_trailing_prefix(text: Seq<char>, map: Seq<(usize, usize)>)
    requires
        text.len() == map.len(),
    ensures
        trim_trailing(text, map).0.len() == trim_trailing(text, map).1.len(),
        trim_trailing(text, map).1.len() <= map.len(),
        forall|i: int| 0 <= i < trim_trailing(text, map).1.len() ==> trim_trailing(text, map).1[i] == map[i],
    decreases text.len(),
{
    if text.len() > 0 && text.last() == ' ' {
        lemma_trim_trailing_prefix(text.drop_last(), map.drop_last());
        let res = trim_trailing(text, map);
        assert forall|i: int| 0 <= i < res.1.len() implies res.1[i] == map[i] by {
            assert(map.drop_last()[i] == map[i]);
        }
    }
}

fn append_from(text: &mut Vec<char>, map: &mut Vec<(usize, usize)>, t: &Vec<char>, row: usize, skip: usize)
    requires
        skip <= t@.len(),
    ensures
        (final(text)@, final(map)@) == append_row((old(text)@, old(map)@), t@, row, skip as int),
{
    let ghost t0 = text@;
    let ghost m0 = map@;
    let mut j = skip;
    while j < t.len()
        invariant
            skip <= j <= t@.len(),
            text@ == t0 + t@.subrange(skip as int, j as int),
            map@ == m0 + Seq::new((j - skip) as nat, |x: int| (row, (skip + x) as usize)),
        decreases t@.len() - j,
    {
        text.push(t[j]);
        map.push((row, j));
        j += 1;
        assert(text@ =~= t0 + t@.subrange(skip as int, j as int));
        assert(map@ =~= m0 + Seq::new((j - skip) as nat, |x: int| (row, (skip + x) as usize)));
    }
    assert(t@.skip(skip as int) =~= t@.subrange(skip as int, t@.len() as int));
}

fn leading_spaces(t: &Vec<char>) -> (r: usize)
    ensures
        r == lead_spaces(t@, 0),
        r <= t@.len(),
{
    let mut i: usize = 0;
    while i < t.len() && t[i] == ' '
        invariant
            i <= t@.len(),
            lead_spaces(t@, 0) == lead_spaces(t@, i as int),
        decreases t@.len() - i,
    {
        i += 1;
    }
    i
}

/// The joined text of rows `ws..=we` and the cell of each of its characters
/// (see `combined_rows`).
fn build_combined_text(rows: &[Vec<GridCell>], n: usize, ws: usize, we: usize) -> (r: (Vec<char>, Vec<(usize, usize)>))
    requires
        ws <= we < rows@.len(),
    ensures
        (r.0@, r.1@) == combined_rows(rows@, n as nat, ws as int, (we - ws + 1) as nat),
        r.0@.len() == r.1@.len(),
        forall|i: int| 0 <= i < r.1@.len() ==> (#[trigger] r.1@[i]).1 < n,
{
    let mut text: Vec<char> = Vec::new();
    let mut map: Vec<(usize, usize)> = Vec::new();
    let mut r = ws;
    while r <= we
        invariant
            ws <= r <= we + 1,
            we < rows@.len(),
            (text@, map@) == combined_rows(rows@, n as nat, ws as int, (r - ws) as nat),
            text@.len() == map@.len(),
            forall|i: int| 0 <= i < map@.len() ==> (#[trigger] map@[i]).1 < n,
        decreases we + 1 - r,
    {
        let t = row_as_chars(&rows[r], n);
        proof {
            lemma_row_text_len(rows@[r as int]@, n as nat);
        }
        let ghost m0 = map@;
        if r > ws {
            if rows_should_join(rows, n, r - 1, r) {
                proof {
                    lemma_trim_trailing_prefix(text@, map@);
                }
                trim_trailing_spaces(&mut text, &mut map);
                let ghost m1 = map@;
                let lead = leading_spaces(&t);
                append_from(&mut text, &mut map, &t, r, lead);
                assert forall|i: int| 0 <= i < map@.len() implies (#[trigger] map@[i]).1 < n by {
                    if i >= m1.len() {
                        assert(map@[i] == (r, (lead + (i - m1.len())) as usize));
                    } else {
                        assert(map@[i] == m1[i]);
                        assert(m1[i] == m0[i]);
                    }
                }
            }
        } else {
            append_from(&mut text, &mut map, &t, r, 0);
            assert forall|i: int| 0 <= i < map@.len() implies (#[trigger] map@[i]).1 < n by {
                if i >= m0.len() {
                    assert(map@[i] == (r, (i - m0.len()) as usize));
                } else {
                    assert(map@[i] == m0[i]);
                }
            }
        }
        r += 1;
    }
    (text, map)
}


/// Spans of consecutive cells: characters on one row in adjacent columns
/// share a span, in the order they come.
pub open spec fn spans_of(m: Seq<(usize, usize)>) -> Seq<SearchMatch>
    decreases m.len(),
{
    if m.len() == 0 {
        Seq::empty()
    } else if m.len() == 1 {
        seq![SearchMatch { row: m[0].0, start_col: m[0].1, end_col: (m[0].1 + 1) as usize }]
    } else {
        let prev = spans_of(m.drop_last());
        let last = prev.last();
        let p = m.last();
        if p.0 == last.row && p.1 == last.end_col {
            prev.update(prev.len() - 1, SearchMatch { row: last.row, start_col: last.start_col, end_col: (p.1 + 1) as usize })
        } else {
            prev.push(SearchMatch { row: p.0, start_col: p.1, end_col: (p.1 + 1) as usize })
        }
    }
}

/// The spans of characters `[start, end)` of the mapping.
pub open spec fn spans_in(m: Seq<(usize, usize)>, start: int, end: int) -> Seq<SearchMatch> {
    if start >= end || start >= m.len() {
        Seq::empty()
    } else {
        spans_of(m.subrange(start, if end < m.len() { end } else { m.len() as int }))
    }
}

proof fn lemma_spans_of_nonempty(m: Seq<(usize, usize)>)
    requires
        m.len() > 0,
    ensures
        spans_of(m).len() > 0,
    decreases m.len(),
{
    if m.len() > 1 {
        lemma_spans_of_nonempty(m.drop_last());
    }
}

fn spans_from_mapping(map: &Vec<(usize, usize)>, start: usize, end: usize) -> (r: Vec<SearchMatch>)
    requires
        forall|i: int| 0 <= i < map@.len() ==> (#[trigger] map@[i]).1 < usize::MAX,
    ensures
        r@ == spans_in(map@, start as int, end as int),
{
    if start >= end || start >= map.len() {
        return Vec::new();
    }
    let end = if end < map.len() { end } else { map.len() };
    let mut spans: Vec<SearchMatch> = Vec::new();
    let mut current_row = map[start].0;
    let mut span_start = map[start].1;
    let mut span_end = map[start].1 + 1;
    let mut i = start + 1;
    assert(map@.subrange(start as int, i as int) =~= seq![map@[start as int]]);
    while i < end
        invariant
            start < i <= end <= map@.len(),
            forall|k: int| 0 <= k < map@.len() ==> (#[trigger] map@[k]).1 < usize::MAX,
            spans@.push(SearchMatch { row: current_row, start_col: span_start, end_col: span_end })
                == spans_of(map@.subrange(start as int, i as int)),
        decreases end - i,
    {
        let (row, col) = map[i];
        assert(map@.subrange(start as int, i + 1).drop_last() =~= map@.subrange(start as int, i as int));
        if row == current_row && col == span_end {
            span_end = col + 1;
            assert(spans@.push(SearchMatch { row: current_row, start_col: span_start, end_col: span_end })
                =~= spans_of(map@.subrange(start as int, i + 1)));
        } else {
            spans.push(SearchMatch { row: current_row, start_col: span_start, end_col: span_end });
            current_row = row;
            span_start = col;
            span_end = col + 1;
        }
        i += 1;
    }
    spans.push(SearchMatch { row: current_row, start_col: span_start, end_col: span_end });
    spans
}

/// Index of the first entry at or after `from` equal to `p`, or -1.
pub open spec fn first_pos(m: Seq<(usize, usize)>, p: (usize, usize), from: int) -> int
    decreases m.len() - from,
{
    if from < 0 || from >= m.len() {
        -1
    } else if m[from] == p {
        from
    } else {
        first_pos(m, p, from + 1)
    }
}

fn position_of(map: &Vec<(usize, usize)>, p: (usize, usize)) -> (r: Option<usize>)
    ensures
        match r {
            Some(i) => first_pos(map@, p, 0) == i,
            None => first_pos(map@, p, 0) == -1,
        },
{
    let mut i: usize = 0;
    while i < map.len()
        invariant
            i <= map@.len(),
            first_pos(map@, p, 0) == first_pos(map@, p, i as int),
        decreases map@.len() - i,
    {
        if map[i].0 == p.0 && map[i].1 == p.1 {
            return Some(i);
        }
        i += 1;
    }
    None
}

/// Index of the first cell at or after `from` in column `col`, or -1.
pub open spec fn cell_in_column(cells: Seq<GridCell>, col: int, from: int) -> int
    decreases cells.len() - from,
{
    if from < 0 || from >= cells.len() {
        -1
    } else if cells[from].column == col {
        from
    } else {
        cell_in_column(cells, col, from + 1)
    }
}

fn find_cell(cells: &Vec<GridCell>, col: usize) -> (r: Option<usize>)
    ensures
        match r {
            Some(i) => cell_in_column(cells@, col as int, 0) == i && i < cells@.len(),
            None => cell_in_column(cells@, col as int, 0) == -1,
        },
{
    let mut i: usize = 0;
    while i < cells.len()
        invariant
            i <= cells@.len(),
            cell_in_column(cells@, col as int, 0) == cell_in_column(cells@, col as int, i as int),
        decreases cells@.len() - i,
    {
        if cells[i].column == col {
            return Some(i);
        }
        i += 1;
    }
    None
}

/// The cell carries the hyperlink with id `id`.
pub open spec fn has_link(c: GridCell, id: Seq<char>) -> bool {
    c.hyperlink matches Some(l) && l.id@ == id
}

/// Scan of columns `0..k` for the first run of cells linked to `id`: the
/// run's first column, one past its last column, and whether the run has
/// ended (a column without a cell neither extends nor ends it).
pub open spec fn link_run(cells: Seq<GridCell>, id: Seq<char>, k: nat) -> (Option<int>, int, bool)
    decreases k,
{
    if k == 0 {
        (None, 0, false)
    } else {
        let s = link_run(cells, id, (k - 1) as nat);
        let col = k - 1;
        let at = cell_in_column(cells, col, 0);
        if s.2 || at < 0 {
            s
        } else if has_link(cells[at], id) {
            (Some(if s.0 is Some { s.0->0 } else { col }), col + 1, false)
        } else if s.0 is Some {
            (s.0, s.1, true)
        } else {
            s
        }
    }
}

/// The span of row `row` linked to `id`, if any.
pub open spec fn link_span(cells: Seq<GridCell>, n: nat, id: Seq<char>, row: int) -> Option<SearchMatch> {
    let s = link_run(cells, id, n);
    if s.0 is Some {
        Some(SearchMatch { row: row as usize, start_col: (s.0->0) as usize, end_col: s.1 as usize })
    } else {
        None
    }
}

/// The spans of rows `0..k` linked to `id`, top to bottom.
pub open spec fn link_spans(rows: Seq<Vec<GridCell>>, n: nat, id: Seq<char>, k: nat) -> Seq<SearchMatch>
    decreases k,
{
    if k == 0 {
        Seq::empty()
    } else {
        let prev = link_spans(rows, n, id, (k - 1) as nat);
        match link_span(rows[k - 1]@, n, id, k - 1) {
            Some(m) => prev.push(m),
            None => prev,
        }
    }
}

proof fn lemma_link_run_done(cells: Seq<GridCell>, id: Seq<char>, k: nat, j: nat)
    requires
        k <= j,
        link_run(cells, id, k).2,
    ensures
        link_run(cells, id, j) == link_run(cells, id, k),
    decreases j - k,
{
    if k < j {
        lemma_link_run_done(cells, id, k, (j - 1) as nat);
    }
}

proof fn lemma_link_run_bounds(cells: Seq<GridCell>, id: Seq<char>, k: nat)
    ensures
        link_run(cells, id, k).1 <= k,
        link_run(cells, id, k).0 matches Some(st) ==> 0 <= st < link_run(cells, id, k).1,
    decreases k,
{
    if k > 0 {
        lemma_link_run_bounds(cells, id, (k - 1) as nat);
    }
}

fn hyperlink_span_in_row(cells: &Vec<GridCell>, n: usize, id: &String, row: usize) -> (r: Option<SearchMatch>)
    ensures
        r == link_span(cells@, n as nat, id@, row as int),
{
    let mut start: Option<usize> = None;
    let mut end: usize = 0;
    let mut done = false;
    let mut col: usize = 0;
    while col < n && !done
        invariant
            col <= n,
            link_run(cells@, id@, col as nat) == (
                match start { Some(x) => Some(x as int), None => None::<int> },
                end as int,
                done,
            ),
        decreases n - col,
    {
        proof {
            lemma_link_run_bounds(cells@, id@, col as nat);
        }
        match find_cell(cells, col) {
            None => {},
            Some(at) => {
                let linked = match &cells[at].hyperlink {
                    Some(l) => l.id == *id,
                    None => false,
                };
                if linked {
                    if start.is_none() {
                        start = Some(col);
                    }
                    end = col + 1;
                } else if start.is_some() {
                    done = true;
                }
            },
        }
        col += 1;
    }
    proof {
        if done {
            lemma_link_run_done(cells@, id@, col as nat, n as nat);
        }
    }
    match start {
        Some(s) => Some(SearchMatch { row, start_col: s, end_col: end }),
        None => None,
    }
}

/// A URL found in the grid and the spans of cells it covers.
#[derive(Debug, Clone)]
pub struct DetectedLink {
    pub url: String,
    pub spans: Vec<SearchMatch>,
}

impl View for DetectedLink {
    type V = (Seq<char>, Seq<SearchMatch>);

    open spec fn view(&self) -> (Seq<char>, Seq<SearchMatch>) {
        (self.url@, self.spans@)
    }
}

pub open spec fn opt_link_view(o: Option<DetectedLink>) -> Option<(Seq<char>, Seq<SearchMatch>)> {
    match o {
        Some(l) => Some(l@),
        None => None,
    }
}

/// The explicit hyperlink of cell `(tr, tc)`: its target, and the span of
/// every row that carries the same link id.
pub open spec fn hyperlink_at(rows: Seq<Vec<GridCell>>, n: nat, tr: int, tc: int) -> Option<(Seq<char>, Seq<SearchMatch>)> {
    if !(0 <= tr < rows.len()) {
        None
    } else {
        let cells = rows[tr]@;
        let at = cell_in_column(cells, tc, 0);
        if at < 0 {
            None
        } else {
            match cells[at].hyperlink {
                None => None,
                Some(l) => {
                    let spans = link_spans(rows, n, l.id@, rows.len());
                    if l.uri@.len() == 0 || spans.len() == 0 {
                        None
                    } else {
                        Some((l.uri@, spans))
                    }
                },
            }
        }
    }
}

fn detect_hyperlink_at(rows: &[Vec<GridCell>], n: usize, tr: usize, tc: usize) -> (r: Option<DetectedLink>)
    ensures
        opt_link_view(r) == hyperlink_at(rows@, n as nat, tr as int, tc as int),
{
    if tr >= rows.len() {
        return None;
    }
    let at = match find_cell(&rows[tr], tc) {
        Some(i) => i,
        None => return None,
    };
    let link = match &rows[tr][at].hyperlink {
        Some(l) => l,
        None => return None,
    };
    let url = link.uri.clone();
    if url.as_str().unicode_len() == 0 {
        return None;
    }
    let mut spans: Vec<SearchMatch> = Vec::new();
    let mut k: usize = 0;
    while k < rows.len()
        invariant
            k <= rows@.len(),
            spans@ == link_spans(rows@, n as nat, link.id@, k as nat),
        decreases rows@.len() - k,
    {
        if let Some(span) = hyperlink_span_in_row(&rows[k], n, &link.id, k) {
            spans.push(span);
        }
        k += 1;
    }
    if spans.len() == 0 {
        return None;
    }
    Some(DetectedLink { url, spans })
}

/// The link at cell `(tr, tc)` of a grid `n` columns wide: the cell's explicit
/// hyperlink if it has one; otherwise a URL recognised in the text of the
/// rows around `tr` (the row above, the row itself and the row below, joined
/// where a row continues onto the next), given with the spans of the cells
/// it covers.
pub open spec fn link_at(rows: Seq<Vec<GridCell>>, n: nat, tr: int, tc: int) -> Option<(Seq<char>, Seq<SearchMatch>)> {
    if n == 0 || !(0 <= tr < rows.len()) {
        None
    } else if hyperlink_at(rows, n, tr, tc) is Some {
        hyperlink_at(rows, n, tr, tc)
    } else {
        let ws = if tr >= 1 { tr - 1 } else { 0 };
        let we = if tr + 1 < rows.len() { tr + 1 } else { rows.len() - 1 };
        let (text, map) = combined_rows(rows, n, ws, (we - ws + 1) as nat);
        let ti = first_pos(map, (tr as usize, tc as usize), 0);
        if ti < 0 {
            None
        } else {
            match url_in_text(text, ti) {
                None => None,
                Some((s, e, u)) => {
                    let spans = spans_in(map, s, e);
                    if spans.len() == 0 {
                        None
                    } else {
                        Some((u, spans))
                    }
                },
            }
        }
    }
}

/// Finds the link at `(target_row, target_col)` with all its highlight spans
/// (see `link_at`).
pub fn detect_link_at(rows: &[Vec<GridCell>], col_count: usize, target_row: usize, target_col: usize) -> (r: Option<DetectedLink>)
    ensures
        opt_link_view(r) == link_at(rows@, col_count as nat, target_row as int, target_col as int),
{
    if col_count == 0 || target_row >= rows.len() {
        return None;
    }
    if let Some(link) = detect_hyperlink_at(rows, col_count, target_row, target_col) {
        return Some(link);
    }
    let window_start = if target_row >= 1 { target_row - 1 } else { 0 };
    let window_end = if target_row + 1 < rows.len() { target_row + 1 } else { rows.len() - 1 };
    let (combined, mapping) = build_combined_text(rows, col_count, window_start, window_end);
    let target_index = match position_of(&mapping, (target_row, target_col)) {
        Some(i) => i,
        None => return None,
    };
    let (start, end, url) = match find_url_in_chars(&combined, target_index) {
        Some(found) => found,
        None => return None,
    };
    let spans = spans_from_mapping(&mapping, start, end);
    if spans.len() == 0 {
        return None;
    }
    Some(DetectedLink { url: string_from_chars(&url), spans })
}

/// The URL at a grid position, for opening it.
pub fn url_at_position(rows: &[Vec<GridCell>], col_count: usize, target_row: usize, target_col: usize) -> (r: Option<String>)
    ensures
        match link_at(rows@, col_count as nat, target_row as int, target_col as int) {
            Some((u, _)) => r matches Some(s) && s@ == u,
            None => r is None,
        },
{
    match detect_link_at(rows, col_count, target_row, target_col) {
        Some(link) => Some(link.url),
        None => None,
    }
}

} // verus!
