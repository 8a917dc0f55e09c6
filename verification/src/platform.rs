//! Which URLs the terminal is willing to hand to the platform opener.

use vstd::prelude::*;

use crate::text::{
    chars_of, chars_start_with, contains_chars, contains_seq, lower_chars, lowered, seq_starts_with,
    trim_chars, trimmed,
};

verus! {

pub open spec fn https_prefix() -> Seq<char> {
    seq!['h', 't', 't', 'p', 's', ':', '/', '/']
}

pub open spec fn http_prefix() -> Seq<char> {
    seq!['h', 't', 't', 'p', ':', '/', '/']
}

pub open spec fn mailto_prefix() -> Seq<char> {
    seq!['m', 'a', 'i', 'l', 't', 'o', ':']
}

/// A `mailto:` URL is safe when its address part is non-empty, holds no line
/// break, `?` or `&`, and no percent-encoded line break (`%0a`, `%0d`, any case).
pub open spec fn mailto_is_safe(url: Seq<char>) -> bool {
    if !seq_starts_with(url, mailto_prefix()) {
        false
    } else {
        let rest = url.skip(7);
        rest.len() > 0 && !rest.contains('\n') && !rest.contains('\r') && !rest.contains('?')
            && !rest.contains('&') && !contains_seq(lowered(rest), seq!['%', '0', 'a'])
            && !contains_seq(lowered(rest), seq!['%', '0', 'd'])
    }
}

/// A URL may be opened when, without surrounding white space, it is an
/// `https://` or `http://` URL with something after the scheme, or a safe `mailto:` URL.
pub open spec fn url_is_safe(url: Seq<char>) -> bool {
    let t = trimmed(url);
    if t.len() == 0 {
        false
    } else if seq_starts_with(t, https_prefix()) {
        t.len() > 8
    } else if seq_starts_with(t, http_prefix()) {
        t.len() > 7
    } else if seq_starts_with(t, mailto_prefix()) {
        mailto_is_safe(t)
    } else {
        false
    }
}

fn has_char(s: &[char], c: char) -> (r: bool)
    ensures
        r == s@.contains(c),
{
    let mut i: usize = 0;
    while i < s.len()
        invariant
            i <= s@.len(),
            forall|j: int| 0 <= j < i ==> s@[j] != c,
        decreases s@.len() - i,
    {
        if s[i] == c {
            assert(s@[i as int] == c);
            return true;
        }
        i += 1;
    }
    false
}

fn is_safe_mailto_chars(url: &[char]) -> (r: bool)
    ensures
        r == mailto_is_safe(url@),
{
    let prefix = ['m', 'a', 'i', 'l', 't', 'o', ':'];
    assert(prefix@ =~= mailto_prefix());
    if !chars_start_with(url, &prefix) {
        return false;
    }
    let rest = crate::text::slice_chars(url, 7, url.len());
    assert(rest@ =~= url@.skip(7));
    if rest.len() == 0 || has_char(&rest, '\n') || has_char(&rest, '\r') || has_char(&rest, '?')
        || has_char(&rest, '&') {
        return false;
    }
    let lower = lower_chars(&rest);
    let lf = ['%', '0', 'a'];
    let cr = ['%', '0', 'd'];
    assert(lf@ =~= seq!['%', '0', 'a']);
    assert(cr@ =~= seq!['%', '0', 'd']);
    !(contains_chars(&lower, &lf) || contains_chars(&lower, &cr))
}

/// Returns true when the URL uses an allowed scheme for external opening.
pub fn is_safe_url(url: &str) -> (r: bool)
    ensures
        r == url_is_safe(url@),
{
    let all = chars_of(url);
    let t = trim_chars(&all);
    if t.len() == 0 {
        return false;
    }
    let https = ['h', 't', 't', 'p', 's', ':', '/', '/'];
    let http = ['h', 't', 't', 'p', ':', '/', '/'];
    let mailto = ['m', 'a', 'i', 'l', 't', 'o', ':'];
    assert(https@ =~= https_prefix());
    assert(http@ =~= http_prefix());
    assert(mailto@ =~= mailto_prefix());
    if chars_start_with(&t, &https) {
        return t.len() > 8;
    }
    if chars_start_with(&t, &http) {
        return t.len() > 7;
    }
    if chars_start_with(&t, &mailto) {
        return is_safe_mailto_chars(&t);
    }
    false
}

/// Whether a `mailto:` URL is safe to open (see `mailto_is_safe`).
pub fn is_safe_mailto(url: &str) -> (r: bool)
    ensures
        r == mailto_is_safe(url@),
{
    let chars = chars_of(url);
    is_safe_mailto_chars(&chars)
}

} // verus!
