//! Colours and the 24-bit ANSI styling of text.

use vstd::prelude::*;
use crate::text::{decimal, push_decimal, str_eq};

verus! {

/// A 24-bit colour.
#[derive(Debug, Clone, Copy, PartialEq, Eq, Structural)]
pub struct Color {
    pub r: u8,
    pub g: u8,
    pub b: u8,
}

impl Color {
    /// The colour with the given red, green and blue components.
    pub fn rgb(r: u8, g: u8, b: u8) -> (c: Self)
        ensures
            c == (Color { r, g, b }),
    {
        Color { r, g, b }
    }
}

/// The component at `i` of `v`, or 255 where `v` has none.
pub open spec fn component_or_full(v: Seq<u8>, i: int) -> u8 {
    if 0 <= i < v.len() { v[i] } else { 255u8 }
}

/// The colour that a list of components `[r, g, b]` stands for: missing
/// components are 255, extra ones are ignored.
pub open spec fn color_of_components(v: Seq<u8>) -> Color {
    Color {
        r: component_or_full(v, 0),
        g: component_or_full(v, 1),
        b: component_or_full(v, 2),
    }
}

impl From<Vec<u8>> for Color {
    fn from(v: Vec<u8>) -> (c: Self) {
        let r = if v.len() > 0 { v[0] } else { 255 };
        let g = if v.len() > 1 { v[1] } else { 255 };
        let b = if v.len() > 2 { v[2] } else { 255 };
        Color { r, g, b }
    }
}

impl vstd::std_specs::convert::FromSpecImpl<Vec<u8>> for Color {
    open spec fn obeys_from_spec() -> bool {
        true
    }

    open spec fn from_spec(v: Vec<u8>) -> Color {
        color_of_components(v@)
    }
}

/// When to colour the output.
#[derive(Debug, Clone, Copy, PartialEq, Eq, Structural)]
pub enum ColorMode {
    Always,
    Never,
    Auto,
}

impl ColorMode {
    /// Whether output is coloured under this mode, given whether `NO_COLOR`
    /// is set and whether standard output is a terminal: `Auto` colours a
    /// terminal unless `NO_COLOR` is set.
    pub fn resolve(self, no_color_set: bool, stdout_is_terminal: bool) -> (on: bool)
        ensures
            on == match self {
                ColorMode::Always => true,
                ColorMode::Never => false,
                ColorMode::Auto => !no_color_set && stdout_is_terminal,
            },
    {
        match self {
            ColorMode::Always => true,
            ColorMode::Never => false,
            ColorMode::Auto => {
                if no_color_set {
                    return false;
                }
                stdout_is_terminal
            },
        }
    }
}

/// The colour mode picked from the `LEAPOH_COLOR` variable and the
/// `--no-color` flag: `always` and `never` in the variable win, then the
/// flag turns colour off, else the terminal decides.
pub open spec fn mode_for(leapoh_color: Option<Seq<char>>, no_color_flag: bool) -> ColorMode {
    if leapoh_color == Some("always"@) {
        ColorMode::Always
    } else if leapoh_color == Some("never"@) {
        ColorMode::Never
    } else if no_color_flag {
        ColorMode::Never
    } else {
        ColorMode::Auto
    }
}

/// How the colour mode is decided: `LEAPOH_COLOR=always` forces colour and
/// `LEAPOH_COLOR=never` forbids it, whatever the flag; with any other value
/// or none, `--no-color` turns colour off, and without the flag the
/// terminal decides.
pub proof fn lemma_color_mode(leapoh_color: Option<Seq<char>>, no_color_flag: bool)
    ensures
        mode_for(Some("always"@), no_color_flag) == ColorMode::Always,
        mode_for(Some("never"@), no_color_flag) == ColorMode::Never,
        leapoh_color != Some("always"@) && leapoh_color != Some("never"@) ==> mode_for(leapoh_color, true)
            == ColorMode::Never,
        leapoh_color != Some("always"@) && leapoh_color != Some("never"@) ==> mode_for(leapoh_color, false)
            == ColorMode::Auto,
        mode_for(None, true) == ColorMode::Never,
        mode_for(None, false) == ColorMode::Auto,
{
    reveal_strlit("always");
    reveal_strlit("never");
    assert("never"@[0] != "always"@[0]);
}

/// Picks the colour mode from the value of `LEAPOH_COLOR` (if set) and the
/// `--no-color` flag.
pub fn color_mode_for(leapoh_color: Option<&str>, no_color_flag: bool) -> (m: ColorMode)
    ensures
        m == mode_for(
            match leapoh_color {
                Some(v) => Some(v@),
                None => None,
            },
            no_color_flag,
        ),
{
    match leapoh_color {
        Some(v) => {
            if str_eq(v, "always") {
                ColorMode::Always
            } else if str_eq(v, "never") {
                ColorMode::Never
            } else if no_color_flag {
                ColorMode::Never
            } else {
                ColorMode::Auto
            }
        },
        None => {
            if no_color_flag {
                ColorMode::Never
            } else {
                ColorMode::Auto
            }
        },
    }
}

/// Whether styling is switched on.
#[derive(Debug, Clone, Copy, PartialEq, Eq, Structural)]
pub struct Theme {
    pub enabled: bool,
}

/// The escape sequence that ends any styling.
pub open spec fn reset_seq() -> Seq<char> {
    "\x1b[0m"@
}

/// The `r;g;b` parameters of a colour.
pub open spec fn rgb_params(c: Color) -> Seq<char> {
    decimal(c.r as nat) + ";"@ + decimal(c.g as nat) + ";"@ + decimal(c.b as nat)
}

/// The escape sequence that opens foreground colour `c`, after the
/// attribute prefix `attr` (empty, `"1;"` for bold, `"3;"` for italic).
pub open spec fn fg_open(attr: Seq<char>, c: Color) -> Seq<char> {
    "\x1b["@ + attr + "38;2;"@ + rgb_params(c) + "m"@
}

/// `s` wrapped in `open` and the reset sequence when styling is on;
/// `s` itself when it is off.
pub open spec fn styled(enabled: bool, open: Seq<char>, s: Seq<char>) -> Seq<char> {
    if enabled {
        open + s + reset_seq()
    } else {
        s
    }
}

/// The escape sequence that opens dim text.
pub open spec fn dim_open() -> Seq<char> {
    "\x1b[2m"@
}

impl Theme {
    /// A theme that styles exactly when `enabled`.
    pub fn new(enabled: bool) -> (t: Self)
        ensures
            t.enabled == enabled,
    {
        Theme { enabled }
    }

    fn paint(&self, attr: &str, c: Color, s: &str) -> (r: String)
        ensures
            r@ == styled(self.enabled, fg_open(attr@, c), s@),
    {
        if !self.enabled {
            return String::from_str(s);
        }
        let mut out = String::from_str("\x1b[");
        out.append(attr);
        out.append("38;2;");
        push_decimal(&mut out, c.r as u64);
        out.append(";");
        push_decimal(&mut out, c.g as u64);
        out.append(";");
        push_decimal(&mut out, c.b as u64);
        out.append("m");
        out.append(s);
        out.append("\x1b[0m");
        out
    }

    /// `s` in foreground colour `c`.
    pub fn fg(&self, c: Color, s: &str) -> (r: String)
        ensures
            r@ == styled(self.enabled, fg_open(""@, c), s@),
    {
        self.paint("", c, s)
    }

    /// `s` dimmed.
    pub fn dim(&self, s: &str) -> (r: String)
        ensures
            r@ == styled(self.enabled, dim_open(), s@),
    {
        if !self.enabled {
            return String::from_str(s);
        }
        let mut out = String::from_str("\x1b[2m");
        out.append(s);
        out.append("\x1b[0m");
        out
    }

    /// `s` in bold, in foreground colour `c`.
    pub fn bold_fg(&self, c: Color, s: &str) -> (r: String)
        ensures
            r@ == styled(self.enabled, fg_open("1;"@, c), s@),
    {
        self.paint("1;", c, s)
    }

    /// `s` in italics, in foreground colour `c`.
    pub fn italic_fg(&self, c: Color, s: &str) -> (r: String)
        ensures
            r@ == styled(self.enabled, fg_open("3;"@, c), s@),
    {
        self.paint("3;", c, s)
    }
}

// ── Palette ─────────────────────────────────────────────────────────

/// The greeting and the name in the header.
#[verifier::allow_in_spec]
pub fn header_color() -> Color
    returns
        (Color { r: 245, g: 245, b: 240 }),
{
    Color { r: 245, g: 245, b: 240 }
}

/// The clock in the header.
#[verifier::allow_in_spec]
pub fn header_dim_color() -> Color
    returns
        (Color { r: 160, g: 160, b: 155 }),
{
    Color { r: 160, g: 160, b: 155 }
}

/// The creature's quoted line.
#[verifier::allow_in_spec]
pub fn voice_color() -> Color
    returns
        (Color { r: 220, g: 200, b: 170 }),
{
    Color { r: 220, g: 200, b: 170 }
}

/// The speaker's tag when the sprite has no colour of its own, and the creature's colour when neither sprite nor pose has one.
#[verifier::allow_in_spec]
pub fn speaker_color() -> Color
    returns
        (Color { r: 255, g: 170, b: 90 }),
{
    Color { r: 255, g: 170, b: 90 }
}

/// The `git` tag.
#[verifier::allow_in_spec]
pub fn tag_git_color() -> Color
    returns
        (Color { r: 120, g: 200, b: 130 }),
{
    Color { r: 120, g: 200, b: 130 }
}

/// The `gh` tag.
#[verifier::allow_in_spec]
pub fn tag_gh_color() -> Color
    returns
        (Color { r: 190, g: 140, b: 240 }),
{
    Color { r: 190, g: 140, b: 240 }
}

/// The `wx` tag.
#[verifier::allow_in_spec]
pub fn tag_wx_color() -> Color
    returns
        (Color { r: 120, g: 200, b: 230 }),
{
    Color { r: 120, g: 200, b: 230 }
}

/// The `bat` tag.
#[verifier::allow_in_spec]
pub fn tag_bat_color() -> Color
    returns
        (Color { r: 240, g: 130, b: 130 }),
{
    Color { r: 240, g: 130, b: 130 }
}

/// The `dsk` tag.
#[verifier::allow_in_spec]
pub fn tag_dsk_color() -> Color
    returns
        (Color { r: 230, g: 200, b: 110 }),
{
    Color { r: 230, g: 200, b: 110 }
}

/// The `cal` tag.
#[verifier::allow_in_spec]
pub fn tag_cal_color() -> Color
    returns
        (Color { r: 200, g: 170, b: 240 }),
{
    Color { r: 200, g: 170, b: 240 }
}

/// The streak tag.
#[verifier::allow_in_spec]
pub fn tag_streak_color() -> Color
    returns
        (Color { r: 250, g: 210, b: 120 }),
{
    Color { r: 250, g: 210, b: 120 }
}

/// Any other tag.
#[verifier::allow_in_spec]
pub fn tag_default_color() -> Color
    returns
        (Color { r: 170, g: 170, b: 170 }),
{
    Color { r: 170, g: 170, b: 170 }
}

/// The colour in which an observation's tag is shown.
pub open spec fn tag_color_of(tag: Seq<char>) -> Color {
    if tag == "git"@ {
        tag_git_color()
    } else if tag == "gh"@ {
        tag_gh_color()
    } else if tag == "wx"@ {
        tag_wx_color()
    } else if tag == "bat"@ {
        tag_bat_color()
    } else if tag == "dsk"@ {
        tag_dsk_color()
    } else if tag == "cal"@ {
        tag_cal_color()
    } else if tag == "◐"@ {
        tag_streak_color()
    } else {
        tag_default_color()
    }
}

/// The colour of an observation's tag.
pub fn tag_color(tag: &str) -> (c: Color)
    ensures
        c == tag_color_of(tag@),
{
    if str_eq(tag, "git") {
        tag_git_color()
    } else if str_eq(tag, "gh") {
        tag_gh_color()
    } else if str_eq(tag, "wx") {
        tag_wx_color()
    } else if str_eq(tag, "bat") {
        tag_bat_color()
    } else if str_eq(tag, "dsk") {
        tag_dsk_color()
    } else if str_eq(tag, "cal") {
        tag_cal_color()
    } else if str_eq(tag, "◐") {
        tag_streak_color()
    } else {
        tag_default_color()
    }
}

} // verus!
