//! Detection of OSC 7 working-directory reports in PTY output.

use vstd::prelude::*;
use vstd::utf8::*;

use crate::text::{chars_of, chars_start_with, find_char_from, first_index_from, opt_chars, seq_starts_with, slice_chars, string_from_chars, utf8_decode};

verus! {

/// Value of a hexadecimal digit.
pub open spec fn hex_digit_value(c: char) -> Option<u8> {
    if '0' <= c && c <= '9' {
        Some((c as u32 - '0' as u32) as u8)
    } else if 'a' <= c && c <= 'f' {
        Some((c as u32 - 'a' as u32 + 10) as u8)
    } else if 'A' <= c && c <= 'F' {
        Some((c as u32 - 'A' as u32 + 10) as u8)
    } else {
        None
    }
}

/// The byte that a two-character escape `%hl` stands for, read as base-16
/// `u8` text (a leading `+` sign is allowed, as `u8::from_str_radix` allows it).
pub open spec fn percent_pair_byte(h: char, l: char) -> Option<u8> {
    if h == '+' {
        hex_digit_value(l)
    } else {
        match (hex_digit_value(h), hex_digit_value(l)) {
            (Some(hv), Some(lv)) => Some((hv * 16 + lv) as u8),
            _ => None,
        }
    }
}

/// Percent-decoding of a path: `%hl` becomes the character whose code is that
/// byte; a `%` with a bad escape is kept and the two characters after it are dropped.
pub open spec fn url_decoded(s: Seq<char>) -> Seq<char>
    decreases s.len(),
{
    if s.len() == 0 {
        Seq::empty()
    } else if s[0] != '%' {
        seq![s[0]] + url_decoded(s.skip(1))
    } else if s.len() < 3 {
        seq!['%']
    } else {
        match percent_pair_byte(s[1], s[2]) {
            Some(b) => seq![b as char] + url_decoded(s.skip(3)),
            None => seq!['%'] + url_decoded(s.skip(3)),
        }
    }
}

/// The prefix `7;file://` of an OSC 7 payload.
pub open spec fn osc7_prefix() -> Seq<char> {
    seq!['7', ';', 'f', 'i', 'l', 'e', ':', '/', '/']
}

/// The path named by the part of a `file://` URL after the scheme: a leading
/// `/` starts the path; otherwise the host runs up to the first `/`.
pub open spec fn osc7_path(url: Seq<char>) -> Seq<char> {
    if url.len() > 0 && url[0] == '/' {
        url_decoded(url)
    } else if first_index_from(url, '/', 0) < url.len() {
        seq!['/'] + url_decoded(url.skip(first_index_from(url, '/', 0) + 1))
    } else {
        url_decoded(url)
    }
}

/// The working directory that an OSC 7 payload (`7;file://host/path`) reports.
pub open spec fn osc7_cwd(payload: Seq<char>) -> Option<Seq<char>> {
    if seq_starts_with(payload, osc7_prefix()) {
        let path = osc7_path(payload.skip(9));
        if path.len() == 0 {
            None
        } else {
            Some(path)
        }
    } else {
        None
    }
}

fn hex_value(c: char) -> (r: Option<u8>)
    ensures
        r == hex_digit_value(c),
{
    if '0' <= c && c <= '9' {
        Some((c as u32 - '0' as u32) as u8)
    } else if 'a' <= c && c <= 'f' {
        Some((c as u32 - 'a' as u32 + 10) as u8)
    } else if 'A' <= c && c <= 'F' {
        Some((c as u32 - 'A' as u32 + 10) as u8)
    } else {
        None
    }
}

pub(crate) fn pair_byte(h: char, l: char) -> (r: Option<u8>)
    ensures
        r == percent_pair_byte(h, l),
{
    if h == '+' {
        return hex_value(l);
    }
    match (hex_value(h), hex_value(l)) {
        (Some(hv), Some(lv)) => Some(hv * 16 + lv),
        _ => None,
    }
}

/// Percent-decodes `input` into `out`.
fn url_decode_into(input: &[char], out: &mut Vec<char>)
    ensures
        final(out)@ == old(out)@ + url_decoded(input@),
{
    let mut i: usize = 0;
    assert(input@.skip(0) =~= input@);
    while i < input.len()
        invariant
            i <= input@.len(),
            old(out)@ + url_decoded(input@) == out@ + url_decoded(input@.skip(i as int)),
        decreases input@.len() - i,
    {
        let ghost rest = input@.skip(i as int);
        let ch = input[i];
        if ch != '%' {
            out.push(ch);
            assert(rest.skip(1) =~= input@.skip(i + 1));
            i += 1;
        } else if input.len() - i < 3 {
            out.push('%');
            assert(url_decoded(rest) == seq!['%']);
            assert(input@.skip(input@.len() as int) =~= Seq::<char>::empty());
            i = input.len();
        } else {
            match pair_byte(input[i + 1], input[i + 2]) {
                Some(b) => out.push(b as char),
                None => out.push('%'),
            }
            assert(rest.skip(3) =~= input@.skip(i + 3));
            i += 3;
        }
    }
    assert(input@.skip(i as int) =~= Seq::<char>::empty());
}

/// Percent-decodes a URL path.
pub fn url_decode_path(input: &str) -> (r: String)
    ensures
        r@ == url_decoded(input@),
{
    let chars = chars_of(input);
    let mut out: Vec<char> = Vec::new();
    url_decode_into(chars.as_slice(), &mut out);
    string_from_chars(out.as_slice())
}

fn osc7_cwd_chars(payload: &[char]) -> (r: Option<Vec<char>>)
    ensures
        match r {
            Some(v) => osc7_cwd(payload@) == Some(v@),
            None => osc7_cwd(payload@) is None,
        },
{
    let prefix = ['7', ';', 'f', 'i', 'l', 'e', ':', '/', '/'];
    assert(prefix@ =~= osc7_prefix());
    if !chars_start_with(payload, &prefix) {
        return None;
    }
    let url = slice_chars(payload, 9, payload.len());
    assert(url@ =~= payload@.skip(9));
    let mut out: Vec<char> = Vec::new();
    if url.len() > 0 && url[0] == '/' {
        url_decode_into(url.as_slice(), &mut out);
    } else {
        let slash = find_char_from(url.as_slice(), '/', 0);
        if slash < url.len() {
            out.push('/');
            let path = slice_chars(url.as_slice(), slash + 1, url.len());
            assert(path@ =~= url@.skip(slash + 1));
            url_decode_into(path.as_slice(), &mut out);
        } else {
            url_decode_into(url.as_slice(), &mut out);
        }
    }
    assert(out@ =~= osc7_path(url@));
    if out.len() == 0 {
        None
    } else {
        Some(out)
    }
}

/// Parse an OSC 7 working-directory report: `7;file://host/path`.
pub fn parse_osc7_cwd(payload: &str) -> (r: Option<String>)
    ensures
        opt_chars(r) == osc7_cwd(payload@),
{
    let chars = chars_of(payload);
    match osc7_cwd_chars(chars.as_slice()) {
        Some(v) => Some(string_from_chars(v.as_slice())),
        None => None,
    }
}

/// The working directory reported by a complete OSC payload, when its bytes are UTF-8.
pub open spec fn osc_payload_cwd(payload: Seq<u8>) -> Option<Seq<char>> {
    if valid_utf8(payload) {
        osc7_cwd(decode_utf8(payload))
    } else {
        None
    }
}

/// Decodes a finished OSC payload and reads an OSC 7 report from it.
pub fn payload_cwd(payload: &[u8]) -> (r: Option<String>)
    ensures
        opt_chars(r) == osc_payload_cwd(payload@),
{
    match utf8_decode(payload) {
        Some(text) => parse_osc7_cwd(text),
        None => None,
    }
}

/// Scanner state between two bytes of PTY output.
#[derive(Clone, Copy, PartialEq, Eq, Debug, Structural)]
pub enum OscTapState {
    Normal,
    Esc,
    Osc,
    OscEsc,
}

/// One byte of the OSC scanner: the next state and payload, and the working
/// directory reported when an OSC sequence ends with this byte.
pub open spec fn osc7_step(m: (OscTapState, Seq<u8>), byte: u8) -> ((OscTapState, Seq<u8>), Option<Seq<char>>) {
    let (st, payload) = m;
    match st {
        OscTapState::Normal => (
            (if byte == 0x1b { OscTapState::Esc } else { OscTapState::Normal }, payload),
            None,
        ),
        OscTapState::Esc => if byte == 0x5d {
            ((OscTapState::Osc, Seq::empty()), None)
        } else {
            ((OscTapState::Normal, payload), None)
        },
        OscTapState::Osc => if byte == 0x07 {
            ((OscTapState::Normal, payload), osc_payload_cwd(payload))
        } else if byte == 0x1b {
            ((OscTapState::OscEsc, payload), None)
        } else {
            ((OscTapState::Osc, payload.push(byte)), None)
        },
        OscTapState::OscEsc => if byte == 0x5c {
            ((OscTapState::Normal, payload), osc_payload_cwd(payload))
        } else {
            ((OscTapState::Osc, payload.push(0x1b).push(byte)), None)
        },
    }
}

/// Scanning `data` from scanner state `m`: the final state, and the last
/// working directory reported along the way.
pub open spec fn osc7_run(m: (OscTapState, Seq<u8>), data: Seq<u8>) -> ((OscTapState, Seq<u8>), Option<Seq<char>>)
    decreases data.len(),
{
    if data.len() == 0 {
        (m, None)
    } else {
        let (m1, latest) = osc7_run(m, data.drop_last());
        let (m2, found) = osc7_step(m1, data.last());
        (m2, if found is Some { found } else { latest })
    }
}

/// Incremental OSC scanner for PTY output; detects OSC 7 working-directory reports.
pub struct Osc7Tap {
    state: OscTapState,
    payload: Vec<u8>,
}

impl View for Osc7Tap {
    type V = (OscTapState, Seq<u8>);

    closed spec fn view(&self) -> (OscTapState, Seq<u8>) {
        (self.state, self.payload@)
    }
}

impl Default for Osc7Tap {
    fn default() -> (r: Self)
        ensures
            r@ == (OscTapState::Normal, Seq::<u8>::empty()),
    {
        Osc7Tap { state: OscTapState::Normal, payload: Vec::new() }
    }
}

impl Osc7Tap {
    /// Feed PTY bytes; returns the latest parsed CWD when an OSC 7 sequence completes.
    pub fn feed(&mut self, data: &[u8]) -> (r: Option<String>)
        ensures
            final(self)@ == osc7_run(old(self)@, data@).0,
            opt_chars(r) == osc7_run(old(self)@, data@).1,
    {
        let mut latest: Option<String> = None;
        let mut i: usize = 0;
        while i < data.len()
            invariant
                i <= data@.len(),
                (self@, opt_chars(latest)) == osc7_run(old(self)@, data@.take(i as int)),
            decreases data@.len() - i,
        {
            let ghost before = self@;
            let found = self.feed_byte(data[i]);
            assert(data@.take(i + 1).drop_last() =~= data@.take(i as int));
            if found.is_some() {
                latest = found;
            }
            i += 1;
        }
        assert(data@.take(data@.len() as int) =~= data@);
        latest
    }

    fn feed_byte(&mut self, byte: u8) -> (r: Option<String>)
        ensures
            (final(self)@, opt_chars(r)) == osc7_step(old(self)@, byte),
    {
        match self.state {
            OscTapState::Normal => {
                if byte == 0x1b {
                    self.state = OscTapState::Esc;
                }
                None
            },
            OscTapState::Esc => {
                if byte == 0x5d {
                    self.payload.clear();
                    self.state = OscTapState::Osc;
                } else {
                    self.state = OscTapState::Normal;
                }
                None
            },
            OscTapState::Osc => {
                if byte == 0x07 {
                    let cwd = self.finish_osc();
                    self.state = OscTapState::Normal;
                    return cwd;
                }
                if byte == 0x1b {
                    self.state = OscTapState::OscEsc;
                    return None;
                }
                self.payload.push(byte);
                None
            },
            OscTapState::OscEsc => {
                if byte == 0x5c {
                    let cwd = self.finish_osc();
                    self.state = OscTapState::Normal;
                    return cwd;
                }
                self.payload.push(0x1b);
                self.payload.push(byte);
                self.state = OscTapState::Osc;
                None
            },
        }
    }

    fn finish_osc(&self) -> (r: Option<String>)
        ensures
            opt_chars(r) == osc_payload_cwd(self.payload@),
    {
        payload_cwd(self.payload.as_slice())
    }
}

/// Scanning is independent of how the output is split into reads: feeding `a`
/// and then `b` ends in the same state as feeding `a + b`, and reports the
/// directory of `b` when `b` reports one, else that of `a`.
pub proof fn lemma_osc7_split_feeds(m: (OscTapState, Seq<u8>), a: Seq<u8>, b: Seq<u8>)
    ensures
        osc7_run(m, a + b).0 == osc7_run(osc7_run(m, a).0, b).0,
        osc7_run(m, a + b).1 == (if osc7_run(osc7_run(m, a).0, b).1 is Some {
            osc7_run(osc7_run(m, a).0, b).1
        } else {
            osc7_run(m, a).1
        }),
    decreases b.len(),
{
    if b.len() == 0 {
        assert(a + b =~= a);
    } else {
        assert((a + b).drop_last() =~= a + b.drop_last());
        lemma_osc7_split_feeds(m, a, b.drop_last());
    }
}

} // verus!
