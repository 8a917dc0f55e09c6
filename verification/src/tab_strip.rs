//! Labels of the tab strip: how long a command has run, and titles cut to
//! the space there is.

use vstd::prelude::*;

use crate::text::{chars_of, decimal_chars, push_decimal_chars, string_from_chars};

verus! {

/// Two digits, zero-padded (for numbers below 100).
pub open spec fn two_digits(n: nat) -> Seq<char> {
    if n < 10 {
        seq!['0'] + decimal_chars(n)
    } else {
        decimal_chars(n)
    }
}

/// `Ns` under a minute, `M:SS` under an hour, `H:MM:SS` from then on.
pub open spec fn elapsed_label(total: nat) -> Seq<char> {
    if total < 60 {
        decimal_chars(total) + seq!['s']
    } else if total < 3600 {
        decimal_chars(total / 60) + seq![':'] + two_digits(total % 60)
    } else {
        decimal_chars(total / 3600) + seq![':'] + two_digits((total % 3600) / 60) + seq![':'] + two_digits(
            total % 60,
        )
    }
}

fn push_two_digits(out: &mut Vec<char>, n: u64)
    requires
        n < 100,
    ensures
        final(out)@ == old(out)@ + two_digits(n as nat),
{
    if n < 10 {
        out.push('0');
        let ghost mid = out@;
        push_decimal_chars(out, n);
        assert(out@ =~= old(out)@ + two_digits(n as nat));
    } else {
        push_decimal_chars(out, n);
    }
}

/// The elapsed-time label of a running command, from whole seconds.
pub fn format_elapsed(total_secs: u64) -> (r: String)
    ensures
        r@ == elapsed_label(total_secs as nat),
{
    let total = total_secs;
    let mut out: Vec<char> = Vec::new();
    if total < 60 {
        push_decimal_chars(&mut out, total);
        out.push('s');
    } else if total < 3600 {
        push_decimal_chars(&mut out, total / 60);
        out.push(':');
        push_two_digits(&mut out, total % 60);
    } else {
        push_decimal_chars(&mut out, total / 3600);
        out.push(':');
        push_two_digits(&mut out, (total % 3600) / 60);
        out.push(':');
        push_two_digits(&mut out, total % 60);
    }
    assert(out@ =~= elapsed_label(total_secs as nat));
    string_from_chars(&out)
}

/// A title of at most `max(max_chars, 3)` characters: a longer one keeps
/// one character less than that and ends in `…`.
pub open spec fn truncated_title(title: Seq<char>, max_chars: nat) -> Seq<char> {
    let max = if max_chars < 3 { 3 } else { max_chars };
    if title.len() <= max {
        title
    } else {
        title.take(max - 1) + seq!['…']
    }
}

/// Cuts a title to fit (see `truncated_title`).
pub fn truncate_title(title: &str, max_chars: usize) -> (r: String)
    ensures
        r@ == truncated_title(title@, max_chars as nat),
        r@.len() <= (if max_chars < 3 { 3 } else { max_chars as int }),
{
    let max = if max_chars < 3 { 3 } else { max_chars };
    let chars = chars_of(title);
    if chars.len() <= max {
        return string_from_chars(&chars);
    }
    let mut out: Vec<char> = Vec::new();
    let mut i: usize = 0;
    while i < max - 1
        invariant
            i <= max - 1 < chars@.len(),
            out@ == chars@.take(i as int),
        decreases max - 1 - i,
    {
        out.push(chars[i]);
        i += 1;
        assert(out@ =~= chars@.take(i as int));
    }
    out.push('…');
    string_from_chars(&out)
}

} // verus!
