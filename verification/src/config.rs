//! The configuration model: enumerations, the colour, terminal, bell and
//! session sections with their defaults, and the parser for `#rrggbb`
//! colours.

use vstd::prelude::*;

use crate::osc::{pair_byte, percent_pair_byte};
use crate::text::{char_utf8_width, chars_of, trim_chars, trimmed, utf8_len, utf8_width};

verus! {

#[derive(Debug, Clone, Copy, PartialEq, Eq, Structural)]
pub enum ThemeMode {
    Light,
    Dark,
    Auto,
}

#[derive(Debug, Clone, Copy, PartialEq, Eq, Structural)]
pub enum ViewModeConfig {
    Single,
    Grid,
}

#[derive(Debug, Clone, Copy, PartialEq, Eq, Structural)]
pub enum BackgroundMode {
    Cover,
    Contain,
    Tile,
    Center,
}

impl Default for BackgroundMode {
    fn default() -> (r: Self)
        ensures
            r == BackgroundMode::Cover,
    {
        BackgroundMode::Cover
    }
}

#[derive(Debug, Clone, Copy, PartialEq, Eq, Structural)]
pub enum BackgroundShader {
    /// No shader (`none` in the configuration file).
    Off,
    Vignette,
    Scanlines,
    Noise,
}

impl Default for BackgroundShader {
    fn default() -> (r: Self)
        ensures
            r == BackgroundShader::Off,
    {
        BackgroundShader::Off
    }
}

#[derive(Debug, Clone, Copy, PartialEq, Eq, Structural)]
pub enum WindowDecorations {
    Borderless,
    Native,
}

impl Default for WindowDecorations {
    fn default() -> (r: Self)
        ensures
            r == WindowDecorations::Borderless,
    {
        WindowDecorations::Borderless
    }
}

/// OSC 52 clipboard integration.
#[derive(Debug, Clone, Copy, PartialEq, Eq, Structural)]
pub enum Osc52Config {
    Disabled,
    Copy,
    Paste,
    CopyPaste,
}

/// Terminal colours as `#rrggbb` strings, with optional palette overrides.
#[derive(Debug, Clone)]
pub struct ColorsConfig {
    pub foreground: String,
    pub background: String,
    pub cursor: String,
    pub palette_16: Option<Vec<String>>,
    pub palette_256: Option<Vec<String>>,
}

/// Session restore settings; `cwd` lists the working directories to reopen.
#[derive(Debug, Clone)]
pub struct SessionConfig {
    pub restore_tabs: bool,
    pub cwd: Vec<String>,
}

#[derive(Debug, Clone)]
pub struct TerminalConfig {
    pub scrollback_lines: usize,
    pub shell: String,
    pub shell_args: Vec<String>,
    /// Remove C0 control characters from pasted text (except tab/newline).
    pub sanitize_paste: bool,
    pub cursor_style: String,
    /// Enable parsing of Kitty keyboard protocol enable/disable escape sequences.
    pub kitty_keyboard: bool,
    pub osc52: Osc52Config,
    /// Non-Unix busy detection window in milliseconds.
    pub busy_heuristic_ms: u64,
}

#[derive(Debug, Clone)]
pub struct BellConfig {
    pub visual: bool,
    pub audible: bool,
    pub urgency: bool,
}

pub fn default_osc52() -> (r: Osc52Config)
    ensures
        r == Osc52Config::CopyPaste,
{
    Osc52Config::CopyPaste
}

pub fn default_true() -> (r: bool)
    ensures
        r,
{
    true
}

pub fn default_title() -> (r: String)
    ensures
        r@ == "Sherion"@,
{
    "Sherion".to_owned()
}

pub fn default_font_family() -> (r: String)
    ensures
        r@ == "DejaVu Sans Mono"@,
{
    "DejaVu Sans Mono".to_owned()
}

/// Fallback font families, in the order they are tried.
pub fn default_font_fallback() -> (r: Vec<String>)
    ensures
        r@.len() == 8,
        r@[0]@ == "Symbols Nerd Font Mono"@,
        r@[1]@ == "Symbols Nerd Font"@,
        r@[2]@ == "JetBrainsMono Nerd Font Mono"@,
        r@[3]@ == "JetBrainsMono Nerd Font"@,
        r@[4]@ == "MesloLGS Nerd Font"@,
        r@[5]@ == "Noto Sans Symbols"@,
        r@[6]@ == "Noto Sans Symbols 2"@,
        r@[7]@ == "Noto Color Emoji"@,
{
    let mut v: Vec<String> = Vec::new();
    v.push("Symbols Nerd Font Mono".to_owned());
    v.push("Symbols Nerd Font".to_owned());
    v.push("JetBrainsMono Nerd Font Mono".to_owned());
    v.push("JetBrainsMono Nerd Font".to_owned());
    v.push("MesloLGS Nerd Font".to_owned());
    v.push("Noto Sans Symbols".to_owned());
    v.push("Noto Sans Symbols 2".to_owned());
    v.push("Noto Color Emoji".to_owned());
    v
}

pub fn default_foreground() -> (r: String)
    ensures
        r@ == "#cccccc"@,
{
    "#cccccc".to_owned()
}

pub fn default_background() -> (r: String)
    ensures
        r@ == "#1e1e1e"@,
{
    "#1e1e1e".to_owned()
}

pub fn default_cursor() -> (r: String)
    ensures
        r@ == "#ffffff"@,
{
    "#ffffff".to_owned()
}

pub fn default_scrollback() -> (r: usize)
    ensures
        r == 10_000,
{
    10_000
}

pub fn default_bell_visual() -> (r: bool)
    ensures
        r,
{
    true
}

pub fn default_bell_audible() -> (r: bool)
    ensures
        r,
{
    true
}

pub fn default_theme_mode() -> (r: ThemeMode)
    ensures
        r == ThemeMode::Auto,
{
    ThemeMode::Auto
}

pub fn default_busy_heuristic_ms() -> (r: u64)
    ensures
        r == 800,
{
    800
}

pub fn default_view_mode() -> (r: ViewModeConfig)
    ensures
        r == ViewModeConfig::Single,
{
    ViewModeConfig::Single
}

pub fn default_restore_tabs() -> (r: bool)
    ensures
        r,
{
    true
}

pub fn default_cursor_style() -> (r: String)
    ensures
        r@ == "block"@,
{
    "block".to_owned()
}

impl ColorsConfig {
    /// The dark colour scheme, which is also the default.
    pub fn dark() -> (r: Self)
        ensures
            r.foreground@ == "#cccccc"@,
            r.background@ == "#1e1e1e"@,
            r.cursor@ == "#ffffff"@,
            r.palette_16 is None,
            r.palette_256 is None,
    {
        ColorsConfig {
            foreground: default_foreground(),
            background: default_background(),
            cursor: default_cursor(),
            palette_16: None,
            palette_256: None,
        }
    }

    /// The light colour scheme.
    pub fn light() -> (r: Self)
        ensures
            r.foreground@ == "#2e2e2e"@,
            r.background@ == "#f4f4f4"@,
            r.cursor@ == "#0057d9"@,
            r.palette_16 is None,
            r.palette_256 is None,
    {
        ColorsConfig {
            foreground: "#2e2e2e".to_owned(),
            background: "#f4f4f4".to_owned(),
            cursor: "#0057d9".to_owned(),
            palette_16: None,
            palette_256: None,
        }
    }
}

impl Default for ColorsConfig {
    fn default() -> (r: Self)
        ensures
            r.foreground@ == "#cccccc"@,
            r.background@ == "#1e1e1e"@,
            r.cursor@ == "#ffffff"@,
            r.palette_16 is None,
            r.palette_256 is None,
    {
        ColorsConfig::dark()
    }
}

impl Default for TerminalConfig {
    fn default() -> (r: Self)
        ensures
            r.scrollback_lines == 10_000,
            r.shell@.len() == 0,
            r.shell_args@.len() == 0,
            r.sanitize_paste,
            r.cursor_style@ == "block"@,
            r.kitty_keyboard,
            r.osc52 == Osc52Config::CopyPaste,
            r.busy_heuristic_ms == 800,
    {
        TerminalConfig {
            scrollback_lines: default_scrollback(),
            shell: String::new(),
            shell_args: Vec::new(),
            sanitize_paste: default_true(),
            cursor_style: default_cursor_style(),
            kitty_keyboard: default_true(),
            osc52: default_osc52(),
            busy_heuristic_ms: default_busy_heuristic_ms(),
        }
    }
}

impl Default for BellConfig {
    fn default() -> (r: Self)
        ensures
            r.visual,
            r.audible,
            !r.urgency,
    {
        BellConfig { visual: default_bell_visual(), audible: default_bell_audible(), urgency: false }
    }
}

impl Default for SessionConfig {
    /// The empty session section: nothing restored until a file says so.
    fn default() -> (r: Self)
        ensures
            !r.restore_tabs,
            r.cwd@.len() == 0,
    {
        SessionConfig { restore_tabs: false, cwd: Vec::new() }
    }
}

/// Why a colour string was refused.
#[derive(Debug, Clone, Copy, PartialEq, Eq, Structural)]
pub enum ColorError {
    /// Not six bytes of digits after trimming and dropping the leading `#`s.
    Length,
    /// A channel is not two hexadecimal digits.
    Digits,
}

/// Byte offset `k` of the encoding of `s` starts a character (or is its end).
pub open spec fn byte_boundary(s: Seq<char>, k: int) -> bool {
    exists|i: int| 0 <= i <= s.len() && #[trigger] utf8_len(s.take(i)) == k
}

/// `s` without its leading `#` characters.
pub open spec fn strip_hashes(s: Seq<char>) -> Seq<char>
    decreases s.len(),
{
    if s.len() > 0 && s[0] == '#' {
        strip_hashes(s.skip(1))
    } else {
        s
    }
}

/// The digits of a colour string: trimmed, leading `#`s dropped.
pub open spec fn color_digits(s: Seq<char>) -> Seq<char> {
    strip_hashes(trimmed(s))
}

/// The channels are read from byte ranges `0..2`, `2..4` and `4..6`; a range
/// that cuts a character in two cannot be read at all.
pub open spec fn color_slices_split_char(s: Seq<char>) -> bool {
    let t = color_digits(s);
    utf8_len(t) == 6 && !(byte_boundary(t, 2) && byte_boundary(t, 4))
}

/// The colour a string names: six bytes of digits, read as three base-16
/// channel values.
pub open spec fn parsed_color(s: Seq<char>) -> Result<(u8, u8, u8), ColorError> {
    let t = color_digits(s);
    if utf8_len(t) != 6 {
        Err(ColorError::Length)
    } else if t.len() == 6 && percent_pair_byte(t[0], t[1]) is Some && percent_pair_byte(t[2], t[3]) is Some
        && percent_pair_byte(t[4], t[5]) is Some {
        Ok((
            percent_pair_byte(t[0], t[1])->0,
            percent_pair_byte(t[2], t[3])->0,
            percent_pair_byte(t[4], t[5])->0,
        ))
    } else {
        Err(ColorError::Digits)
    }
}

proof fn lemma_utf8_len_take(s: Seq<char>, i: int)
    requires
        0 <= i <= s.len(),
    ensures
        utf8_len(s.take(i)) <= utf8_len(s),
        utf8_len(s) >= s.len(),
    decreases s.len(),
{
    if s.len() > 0 {
        if i == s.len() {
            assert(s.take(i) =~= s);
            lemma_utf8_len_take(s.drop_last(), 0);
        } else {
            assert(s.take(i) =~= s.drop_last().take(i));
            lemma_utf8_len_take(s.drop_last(), i);
        }
    }
}

/// Parses a `#rrggbb` colour into its three channels (see `parsed_color`).
pub fn parse_color(hex: &str) -> (r: Result<(u8, u8, u8), ColorError>)
    requires
        !color_slices_split_char(hex@),
    ensures
        r == parsed_color(hex@),
{
    let chars = chars_of(hex);
    let t0 = trim_chars(&chars);
    let mut i: usize = 0;
    assert(t0@.skip(0) =~= t0@);
    while i < t0.len() && t0[i] == '#'
        invariant
            i <= t0@.len(),
            strip_hashes(t0@) == strip_hashes(t0@.skip(i as int)),
        decreases t0@.len() - i,
    {
        assert(t0@.skip(i as int).skip(1) =~= t0@.skip(i + 1));
        i += 1;
    }
    let t = crate::text::slice_chars(&t0, i, t0.len());
    assert(t@ =~= t0@.skip(i as int));
    let ghost digits = color_digits(hex@);
    assert(t@ == digits);
    let mut bytes: usize = 0;
    let mut k: usize = 0;
    assert(t@.take(0) =~= Seq::<char>::empty());
    while k < t.len()
        invariant
            k <= t@.len(),
            bytes == utf8_len(t@.take(k as int)),
            bytes <= 6,
            t@ == color_digits(hex@),
        decreases t@.len() - k,
    {
        assert(t@.take(k + 1).drop_last() =~= t@.take(k as int));
        assert(utf8_len(t@.take(k + 1)) == utf8_len(t@.take(k as int)) + utf8_width(t@[k as int]));
        let w = char_utf8_width(t[k]);
        if bytes + w > 6 {
            proof {
                lemma_utf8_len_take(t@, k + 1);
            }
            return Err(ColorError::Length);
        }
        bytes = bytes + w;
        k += 1;
    }
    assert(t@.take(t@.len() as int) =~= t@);
    if bytes != 6 {
        return Err(ColorError::Length);
    }
    if t.len() != 6 {
        return Err(ColorError::Digits);
    }
    let r = pair_byte(t[0], t[1]);
    let g = pair_byte(t[2], t[3]);
    let b = pair_byte(t[4], t[5]);
    match (r, g, b) {
        (Some(r), Some(g), Some(b)) => Ok((r, g, b)),
        _ => Err(ColorError::Digits),
    }
}

} // verus!

verus! {

/// Every character takes at least one byte.
pub proof fn lemma_utf8_len_lower(s: Seq<char>)
    ensures
        utf8_len(s) >= s.len(),
    decreases s.len(),
{
    if s.len() > 0 {
        lemma_utf8_len_lower(s.drop_last());
    }
}

/// The most tabs opened from a saved session.
pub const MAX_RESTORED_TABS: usize = 16;

/// The directories of the tabs opened at start-up: the first sixteen saved
/// ones when the session is restored, none otherwise.
pub open spec fn restored_cwds_spec(restore_tabs: bool, saved: Seq<Seq<char>>) -> Seq<Seq<char>> {
    if !restore_tabs {
        Seq::empty()
    } else if saved.len() <= MAX_RESTORED_TABS {
        saved
    } else {
        saved.take(MAX_RESTORED_TABS as int)
    }
}

/// The directories of the tabs to open at start-up (see `restored_cwds_spec`);
/// the first one is the first tab's.
pub fn restored_cwds(session: &SessionConfig) -> (r: Vec<String>)
    ensures
        r@.map_values(|c: String| c@) == restored_cwds_spec(
            session.restore_tabs,
            session.cwd@.map_values(|c: String| c@),
        ),
        r@.len() <= MAX_RESTORED_TABS,
{
    let ghost saved = session.cwd@.map_values(|c: String| c@);
    let mut out: Vec<String> = Vec::new();
    if !session.restore_tabs {
        assert(out@.map_values(|c: String| c@) =~= Seq::<Seq<char>>::empty());
        return out;
    }
    let n = if session.cwd.len() < MAX_RESTORED_TABS { session.cwd.len() } else { MAX_RESTORED_TABS };
    let mut i: usize = 0;
    while i < n
        invariant
            i <= n <= session.cwd@.len(),
            n <= MAX_RESTORED_TABS,
            saved == session.cwd@.map_values(|c: String| c@),
            saved.len() == session.cwd@.len(),
            out@.len() == i,
            out@.map_values(|c: String| c@) == saved.take(i as int),
        decreases n - i,
    {
        let ghost before = out@;
        let c = session.cwd[i].clone();
        assert(c@ == saved[i as int]);
        out.push(c);
        proof {
            assert forall|k: int| 0 <= k <= i implies (#[trigger] out@[k])@ == saved[k] by {
                if k < i {
                    assert(out@[k] == before[k]);
                    assert(before.map_values(|c: String| c@)[k] == saved.take(i as int)[k]);
                }
            }
            assert(out@.map_values(|c: String| c@) =~= saved.take(i + 1));
        }
        i += 1;
    }
    assert(saved.len() <= MAX_RESTORED_TABS ==> saved.take(n as int) =~= saved);
    out
}

} // verus!
