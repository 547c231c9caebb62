//! The layout: the creature on the left, the header, observations and the
//! creature's line on the right.

use vstd::prelude::*;
use crate::clock::{clock_label, spec_clock_label};
use crate::config::Config;
use crate::sprite::{pose_color, tint, Pose, Sprite};
use crate::state::{Context, Observation};
use crate::text::{
    capitalize, chars_of, lines, lines_of, line_state, pad_right, padded_right,
    push_char, push_spaces, spaces, string_of, views,
};
use crate::theme::{
    dim_open, fg_open, header_color, header_dim_color, reset_seq, speaker_color, styled, tag_color,
    tag_color_of, voice_color, Color, Theme,
};
use crate::voice::addressee;

verus! {

broadcast use vstd::seq_lib::group_seq_properties;

/// Columns between the creature and the text.
pub const GUTTER: usize = 4;

/// Width of the tag column.
pub const TAG_WIDTH: usize = 6;

// ── Visual width ────────────────────────────────────────────────────

/// `char::is_ascii_alphabetic`.
pub open spec fn is_ascii_alpha(c: char) -> bool {
    ('a' <= c && c <= 'z') || ('A' <= c && c <= 'Z')
}

/// One step of the width count: the width so far and whether an escape
/// sequence is open, after character `c`. An escape sequence opens at
/// `'\x1b'` and closes at the next ASCII letter; neither counts.
pub open spec fn width_step(st: (nat, bool), c: char) -> (nat, bool) {
    if st.1 {
        (st.0, !is_ascii_alpha(c))
    } else if c == '\x1b' {
        (st.0, true)
    } else {
        (st.0 + 1, false)
    }
}

/// The width count after the characters of `s`, from state `st`.
pub open spec fn width_scan(s: Seq<char>, st: (nat, bool)) -> (nat, bool)
    decreases s.len(),
{
    if s.len() == 0 {
        st
    } else {
        width_step(width_scan(s.drop_last(), st), s.last())
    }
}

/// The number of characters of `s` outside ANSI escape sequences.
pub open spec fn visual_width_of(s: Seq<char>) -> nat {
    width_scan(s, (0, false)).0
}

proof fn lemma_width_scan_bounded(s: Seq<char>)
    ensures
        width_scan(s, (0, false)).0 <= s.len(),
    decreases s.len(),
{
    if s.len() > 0 {
        lemma_width_scan_bounded(s.drop_last());
    }
}

/// Visual width of a string with ANSI escapes stripped; each Unicode
/// scalar counts as one column.
pub fn visual_width(s: &str) -> (w: usize)
    ensures
        w == visual_width_of(s@),
{
    let v = chars_of(s);
    let mut w: usize = 0;
    let mut in_esc = false;
    let mut i: usize = 0;
    while i < v.len()
        invariant
            v@ == s@,
            i <= v@.len(),
            (w as nat, in_esc) == width_scan(v@.take(i as int), (0, false)),
            w <= i,
        decreases v.len() - i,
    {
        assert(v@.take(i + 1).drop_last() =~= v@.take(i as int));
        let c = v[i];
        if in_esc {
            if ('a' <= c && c <= 'z') || ('A' <= c && c <= 'Z') {
                in_esc = false;
            }
        } else if c == '\x1b' {
            in_esc = true;
        } else {
            w = w + 1;
        }
        i = i + 1;
    }
    assert(v@.take(v@.len() as int) =~= v@);
    w
}

proof fn lemma_width_scan_append(a: Seq<char>, b: Seq<char>, st: (nat, bool))
    ensures
        width_scan(a + b, st) == width_scan(b, width_scan(a, st)),
    decreases b.len(),
{
    if b.len() == 0 {
        assert(a + b =~= a);
    } else {
        lemma_width_scan_append(a, b.drop_last(), st);
        assert((a + b).drop_last() =~= a + b.drop_last());
    }
}

/// Whether `s` holds no escape character.
pub open spec fn no_escapes(s: Seq<char>) -> bool {
    forall|i: int| 0 <= i < s.len() ==> s[i] != '\x1b'
}

proof fn lemma_scan_plain(s: Seq<char>, w: nat)
    requires
        no_escapes(s),
    ensures
        width_scan(s, (w, false)) == (w + s.len(), false),
    decreases s.len(),
{
    if s.len() > 0 {
        lemma_scan_plain(s.drop_last(), w);
    }
}

proof fn lemma_scan_inside(s: Seq<char>, w: nat)
    requires
        forall|i: int| 0 <= i < s.len() ==> !is_ascii_alpha(#[trigger] s[i]),
    ensures
        width_scan(s, (w, true)) == (w, true),
    decreases s.len(),
{
    if s.len() > 0 {
        lemma_scan_inside(s.drop_last(), w);
    }
}

proof fn lemma_decimal_no_alpha(n: nat)
    ensures
        forall|i: int| 0 <= i < crate::text::decimal(n).len() ==> {
            let c = #[trigger] crate::text::decimal(n)[i];
            '0' <= c && c <= '9'
        },
    decreases n,
{
    let d = crate::text::decimal(n);
    if n >= 10 {
        lemma_decimal_no_alpha(n / 10);
        let p = crate::text::decimal(n / 10);
        assert forall|i: int| 0 <= i < d.len() implies {
            let c = #[trigger] d[i];
            '0' <= c && c <= '9'
        } by {
            if i < p.len() {
                assert(d[i] == p[i]);
            } else {
                assert(d[i] == crate::text::digit_char(n % 10));
            }
        }
    } else {
        assert(d[0] == crate::text::digit_char(n));
    }
}

proof fn lemma_scan_push(s: Seq<char>, c: char, st: (nat, bool))
    ensures
        width_scan(s.push(c), st) == width_step(width_scan(s, st), c),
{
    assert(s.push(c).drop_last() =~= s);
}

proof fn lemma_scan_escape_start(w: nat)
    ensures
        width_scan("\x1b["@, (w, false)) == (w, true),
{
    reveal_strlit("\x1b[");
    let e = Seq::<char>::empty();
    assert(width_scan(e, (w, false)) == (w, false));
    lemma_scan_push(e, '\x1b', (w, false));
    lemma_scan_push(e.push('\x1b'), '[', (w, false));
    assert("\x1b["@ =~= e.push('\x1b').push('['));
}

proof fn lemma_scan_letter_m(w: nat)
    ensures
        width_scan("m"@, (w, true)) == (w, false),
{
    reveal_strlit("m");
    let e = Seq::<char>::empty();
    lemma_scan_push(e, 'm', (w, true));
    assert("m"@ =~= e.push('m'));
}

proof fn lemma_scan_open(attr: Seq<char>, c: Color, w: nat)
    requires
        attr == ""@ || attr == "1;"@ || attr == "3;"@,
    ensures
        width_scan(fg_open(attr, c), (w, false)) == (w, false),
{
    reveal_strlit("38;2;");
    reveal_strlit(";");
    reveal_strlit("");
    reveal_strlit("1;");
    reveal_strlit("3;");
    lemma_decimal_no_alpha(c.r as nat);
    lemma_decimal_no_alpha(c.g as nat);
    lemma_decimal_no_alpha(c.b as nat);
    let inner = attr + "38;2;"@ + crate::theme::rgb_params(c);
    assert forall|i: int| 0 <= i < inner.len() implies !is_ascii_alpha(#[trigger] inner[i]) by {
        let p1 = attr + "38;2;"@;
        let d1 = crate::text::decimal(c.r as nat);
        let d2 = crate::text::decimal(c.g as nat);
        let d3 = crate::text::decimal(c.b as nat);
        if i < p1.len() {
        } else if i < p1.len() + d1.len() {
            assert(inner[i] == d1[i - p1.len()]);
        } else if i < p1.len() + d1.len() + 1 {
        } else if i < p1.len() + d1.len() + 1 + d2.len() {
            assert(inner[i] == d2[i - p1.len() - d1.len() - 1]);
        } else if i < p1.len() + d1.len() + 2 + d2.len() {
        } else {
            assert(inner[i] == d3[i - p1.len() - d1.len() - 2 - d2.len()]);
        }
    }
    let esc = "\x1b["@;
    lemma_scan_escape_start(w);
    lemma_width_scan_append(esc, inner, (w, false));
    lemma_scan_inside(inner, w);
    lemma_width_scan_append(esc + inner, "m"@, (w, false));
    lemma_scan_letter_m(w);
    assert(fg_open(attr, c) =~= esc + inner + "m"@);
}

proof fn lemma_scan_reset(w: nat)
    ensures
        width_scan(crate::theme::reset_seq(), (w, false)) == (w, false),
{
    reveal_strlit("\x1b[0m");
    let e = Seq::<char>::empty();
    let s1 = e.push('\x1b');
    let s2 = s1.push('[');
    let s3 = s2.push('0');
    let s4 = s3.push('m');
    lemma_scan_push(e, '\x1b', (w, false));
    lemma_scan_push(s1, '[', (w, false));
    lemma_scan_push(s2, '0', (w, false));
    lemma_scan_push(s3, 'm', (w, false));
    assert(crate::theme::reset_seq() =~= s4);
}

/// Painting text in a colour (plain, bold or italic), styling on or off,
/// leaves its visual width unchanged, for text without escapes of its own.
pub proof fn lemma_paint_keeps_width(enabled: bool, attr: Seq<char>, c: Color, s: Seq<char>)
    requires
        attr == ""@ || attr == "1;"@ || attr == "3;"@,
        no_escapes(s),
    ensures
        visual_width_of(styled(enabled, fg_open(attr, c), s)) == visual_width_of(s),
        visual_width_of(s) == s.len(),
{
    lemma_scan_plain(s, 0);
    if enabled {
        let o = fg_open(attr, c);
        lemma_scan_open(attr, c, 0);
        lemma_width_scan_append(o, s, (0, false));
        lemma_scan_plain(s, 0);
        lemma_width_scan_append(o + s, crate::theme::reset_seq(), (0, false));
        lemma_scan_reset(s.len());
    }
}

proof fn lemma_scan_dim_open(w: nat)
    ensures
        width_scan(dim_open(), (w, false)) == (w, false),
{
    reveal_strlit("\x1b[2m");
    let e = Seq::<char>::empty();
    let s1 = e.push('\x1b');
    let s2 = s1.push('[');
    let s3 = s2.push('2');
    let s4 = s3.push('m');
    lemma_scan_push(e, '\x1b', (w, false));
    lemma_scan_push(s1, '[', (w, false));
    lemma_scan_push(s2, '2', (w, false));
    lemma_scan_push(s3, 'm', (w, false));
    assert(dim_open() =~= s4);
}

/// Dimming text, styling on or off, leaves its visual width unchanged, for
/// text without escapes of its own.
pub proof fn lemma_dim_keeps_width(enabled: bool, s: Seq<char>)
    requires
        no_escapes(s),
    ensures
        visual_width_of(styled(enabled, dim_open(), s)) == visual_width_of(s),
        visual_width_of(s) == s.len(),
{
    lemma_scan_plain(s, 0);
    if enabled {
        let o = dim_open();
        lemma_scan_dim_open(0);
        lemma_width_scan_append(o, s, (0, false));
        lemma_width_scan_append(o + s, crate::theme::reset_seq(), (0, false));
        lemma_scan_reset(s.len());
    }
}

// ── The right-hand column ───────────────────────────────────────────

/// The short name under which the creature speaks: the first three
/// characters of its name, or `pet` for a nameless one.
pub open spec fn speaker_tag(name: Seq<char>) -> Seq<char> {
    if name.len() == 0 {
        "pet"@
    } else if name.len() <= 3 {
        name
    } else {
        name.take(3)
    }
}

/// The speaker tag is the start of the creature's name, at most three
/// characters long, and the whole name when it is that short; a nameless
/// creature speaks as `pet`.
pub proof fn lemma_speaker_tag_is_name_start(name: Seq<char>)
    ensures
        name.len() > 0 ==> speaker_tag(name).is_prefix_of(name),
        name.len() > 0 ==> speaker_tag(name).len() == if name.len() < 3 { name.len() } else { 3 },
        name.len() == 0 ==> speaker_tag(name) == "pet"@,
{
    if name.len() > 0 {
        assert(speaker_tag(name) =~= name.subrange(0, speaker_tag(name).len() as int));
    }
}

/// The creature's short speaker tag.
pub fn speaker(sprite: &Sprite) -> (r: String)
    ensures
        r@ == speaker_tag(sprite.name@),
{
    let v = chars_of(sprite.name.as_str());
    if v.len() == 0 {
        String::from_str("pet")
    } else if v.len() <= 3 {
        assert(v@.subrange(0, v@.len() as int) =~= v@);
        string_of(&v, 0, v.len())
    } else {
        string_of(&v, 0, 3)
    }
}

/// The greeting for hour `h`.
pub open spec fn greeting(h: u32) -> Seq<char> {
    if 5 <= h && h <= 11 {
        "good morning"@
    } else if 12 <= h && h <= 16 {
        "good afternoon"@
    } else if 17 <= h && h <= 21 {
        "good evening"@
    } else {
        "still up"@
    }
}

/// The header line: a dimmed greeting, the user's name in bold, and the
/// clock label `when`.
pub open spec fn header_line(ctx: Context, cfg: Config, theme: Theme, when: Seq<char>) -> Seq<char> {
    styled(theme.enabled, dim_open(), greeting(ctx.hour) + ", "@)
        + styled(theme.enabled, fg_open("1;"@, header_color()), addressee(ctx, cfg))
        + styled(theme.enabled, fg_open(""@, header_dim_color()), " · "@)
        + styled(theme.enabled, fg_open(""@, header_dim_color()), when)
}

/// The clock label for the moment of `ctx`, empty where chrono has none.
pub open spec fn clock_text(ctx: Context) -> Seq<char> {
    match spec_clock_label(ctx.today, ctx.hour, ctx.minute) {
        Some(t) => t,
        None => Seq::empty(),
    }
}

/// The header line, given the clock label `when`.
pub fn header_with(ctx: &Context, cfg: &Config, theme: &Theme, when: &str) -> (r: String)
    ensures
        r@ == header_line(*ctx, *cfg, *theme, when@),
{
    let who: String = match &cfg.name {
        Some(n) => n.clone(),
        None => capitalize(ctx.user.as_str()),
    };
    let h = ctx.hour;
    let greeting: &str = if 5 <= h && h <= 11 {
        "good morning"
    } else if 12 <= h && h <= 16 {
        "good afternoon"
    } else if 17 <= h && h <= 21 {
        "good evening"
    } else {
        "still up"
    };
    let mut core = String::from_str(greeting);
    core.append(", ");
    let mut out = theme.dim(core.as_str());
    let name_styled = theme.bold_fg(header_color(), who.as_str());
    let sep = theme.fg(header_dim_color(), " · ");
    let when_styled = theme.fg(header_dim_color(), when);
    out.append(name_styled.as_str());
    out.append(sep.as_str());
    out.append(when_styled.as_str());
    out
}

/// The header line: greeting, name and the weekday and time of `ctx`.
pub fn header(ctx: &Context, cfg: &Config, theme: &Theme) -> (r: String)
    ensures
        r@ == header_line(*ctx, *cfg, *theme, clock_text(*ctx)),
{
    let when = match clock_label(ctx.today, ctx.hour, ctx.minute) {
        Some(t) => t,
        None => String::new(),
    };
    header_with(ctx, cfg, theme, when.as_str())
}

/// One observation's line: its tag, coloured and padded to the tag column,
/// then its text.
pub open spec fn observation_line(o: Observation, theme: Theme) -> Seq<char> {
    styled(theme.enabled, fg_open(""@, tag_color_of(o.tag@)), pad_right(o.tag@, TAG_WIDTH as nat)) + o.line@
}

/// The closing line: the speaker's tag in bold, a dimmed dot, and the quoted
/// line in italics.
pub open spec fn voice_row(sprite: Sprite, voice: Seq<char>, theme: Theme) -> Seq<char> {
    let tag_color = match sprite.color {
        Some(c) => c,
        None => speaker_color(),
    };
    styled(theme.enabled, fg_open("1;"@, tag_color), speaker_tag(sprite.name@)) + " "@
        + styled(theme.enabled, dim_open(), "·"@) + " "@
        + styled(theme.enabled, fg_open("3;"@, voice_color()), "\""@ + voice + "\""@)
}

/// The lines of the right-hand column: the header, a blank line, one line
/// per observation, blank lines up to the seventh, then the creature's line.
pub open spec fn right_column(
    header: Seq<char>,
    obs: Seq<Observation>,
    voice_line: Seq<char>,
    theme: Theme,
) -> Seq<Seq<char>> {
    let body = seq![header, Seq::<char>::empty()] + obs.map_values(|o: Observation| observation_line(o, theme));
    let padded = if body.len() < 7 {
        body + Seq::new((7 - body.len()) as nat, |i: int| Seq::<char>::empty())
    } else {
        body
    };
    padded.push(voice_line)
}

/// The lines of the right-hand column.
pub fn build_right_lines(
    ctx: &Context,
    sprite: &Sprite,
    observations: &Vec<Observation>,
    voice: &str,
    cfg: &Config,
    theme: &Theme,
) -> (r: Vec<String>)
    ensures
        views(r@) == right_column(
            header_line(*ctx, *cfg, *theme, clock_text(*ctx)),
            observations@,
            voice_row(*sprite, voice@, *theme),
            *theme,
        ),
{
    let mut out: Vec<String> = Vec::new();
    out.push(header(ctx, cfg, theme));
    out.push(String::new());
    let ghost head = views(out@);
    let ghost lines_of_obs = observations@.map_values(|o: Observation| observation_line(o, *theme));
    let mut i: usize = 0;
    while i < observations.len()
        invariant
            i <= observations@.len(),
            lines_of_obs == observations@.map_values(|o: Observation| observation_line(o, *theme)),
            views(out@) == head + lines_of_obs.take(i as int),
            head.len() == 2,
        decreases observations.len() - i,
    {
        let obs = &observations[i];
        let tag = obs.tag.as_str();
        let padded = padded_right(tag, TAG_WIDTH);
        let mut line = theme.fg(tag_color(tag), padded.as_str());
        line.append(obs.line.as_str());
        let ghost before = out@;
        out.push(line);
        proof {
            assert(line@ == observation_line(observations@[i as int], *theme));
            assert(lines_of_obs[i as int] == observation_line(observations@[i as int], *theme));
            assert(views(out@) =~= views(before).push(line@));
            assert(lines_of_obs.take(i + 1) =~= lines_of_obs.take(i as int).push(lines_of_obs[i as int]));
        }
        assert(views(out@) =~= head + lines_of_obs.take(i + 1));
        i = i + 1;
    }
    assert(lines_of_obs.take(observations@.len() as int) =~= lines_of_obs);
    let ghost body = views(out@);
    while out.len() < 7
        invariant
            body.len() >= 2,
            out@.len() >= body.len(),
            out@.len() <= 7 || out@.len() == body.len(),
            views(out@) == body + Seq::new((out@.len() - body.len()) as nat, |k: int| Seq::<char>::empty()),
        decreases 7 - out.len(),
    {
        let ghost before = out@;
        let blank = String::new();
        out.push(blank);
        proof {
            assert(views(out@) =~= views(before).push(blank@));
            assert(Seq::new((out@.len() - body.len()) as nat, |k: int| Seq::<char>::empty()) =~= Seq::new(
                (before.len() - body.len()) as nat,
                |k: int| Seq::<char>::empty(),
            ).push(Seq::<char>::empty()));
        }
        assert(views(out@) =~= body + Seq::new((out@.len() - body.len()) as nat, |k: int| Seq::<char>::empty()));
    }
    proof {
        if body.len() >= 7 {
            assert(views(out@) =~= body);
        }
    }
    let speaker_name = speaker(sprite);
    let tag_c = match sprite.color {
        Some(c) => c,
        None => speaker_color(),
    };
    let mut row = theme.bold_fg(tag_c, speaker_name.as_str());
    row.append(" ");
    let dot = theme.dim("·");
    row.append(dot.as_str());
    row.append(" ");
    let mut quoted = String::from_str("\"");
    quoted.append(voice);
    quoted.append("\"");
    let q = theme.italic_fg(voice_color(), quoted.as_str());
    row.append(q.as_str());
    assert(row@ == voice_row(*sprite, voice@, *theme));
    let ghost padded = views(out@);
    proof {
        let body2 = seq![header_line(*ctx, *cfg, *theme, clock_text(*ctx)), Seq::<char>::empty()]
            + observations@.map_values(|o: Observation| observation_line(o, *theme));
        assert(body =~= body2);
    }
    out.push(row);
    assert(views(out@) =~= padded.push(row@));
    assert(views(out@) =~= right_column(
        header_line(*ctx, *cfg, *theme, clock_text(*ctx)),
        observations@,
        voice_row(*sprite, voice@, *theme),
        *theme,
    ));
    out
}

/// The right-hand column has at least eight lines, the header first and
/// the creature's line last.
pub proof fn lemma_voice_at_bottom(header: Seq<char>, obs: Seq<Observation>, voice_line: Seq<char>, theme: Theme)
    ensures
        right_column(header, obs, voice_line, theme).len() >= 8,
        right_column(header, obs, voice_line, theme)[0] == header,
        right_column(header, obs, voice_line, theme).last() == voice_line,
{
}

// ── The whole glance ────────────────────────────────────────────────

/// The creature's rows: the non-empty lines of its art.
pub open spec fn art_rows(art: Seq<char>) -> Seq<Seq<char>> {
    lines_of(art).filter(|l: Seq<char>| l.len() > 0)
}

/// The widest visual width among `rows` (0 for none).
pub open spec fn widest(rows: Seq<Seq<char>>) -> nat
    decreases rows.len(),
{
    if rows.len() == 0 {
        0
    } else {
        let w = widest(rows.drop_last());
        let x = visual_width_of(rows.last());
        if x > w { x } else { w }
    }
}

/// Row `i` of the glance: the creature's row `i` painted (if any), padding
/// up to the widest row plus the gutter, the right-hand line `i` (if any),
/// and a newline.
pub open spec fn glance_row(
    left: Seq<Seq<char>>,
    right: Seq<Seq<char>>,
    width: nat,
    enabled: bool,
    color: Color,
    i: int,
) -> Seq<char> {
    let raw = if i < left.len() { left[i] } else { Seq::<char>::empty() };
    let painted = if raw.len() == 0 { Seq::<char>::empty() } else { styled(enabled, fg_open(""@, color), raw) };
    let pad = (if width >= visual_width_of(raw) { width - visual_width_of(raw) } else { 0 }) + GUTTER;
    let r = if i < right.len() { right[i] } else { Seq::<char>::empty() };
    painted + spaces(pad as nat) + r + seq!['\n']
}

/// The first `n` rows of the glance.
pub open spec fn glance_rows(
    left: Seq<Seq<char>>,
    right: Seq<Seq<char>>,
    width: nat,
    enabled: bool,
    color: Color,
    n: nat,
) -> Seq<char>
    decreases n,
{
    if n == 0 {
        Seq::empty()
    } else {
        glance_rows(left, right, width, enabled, color, (n - 1) as nat) + glance_row(left, right, width, enabled, color, n - 1)
    }
}

/// The whole glance for the given right-hand lines: as many rows as the
/// taller of the creature and the right-hand column.
pub open spec fn glance(art: Pose, sprite: Sprite, right: Seq<Seq<char>>, enabled: bool) -> Seq<char> {
    let left = art_rows(art.art@);
    let color = match tint(sprite, art) {
        Some(c) => c,
        None => speaker_color(),
    };
    let height = if left.len() >= right.len() { left.len() } else { right.len() };
    glance_rows(left, right, widest(left), enabled, color, height)
}

proof fn lemma_first_row_leads(
    left: Seq<Seq<char>>,
    right: Seq<Seq<char>>,
    width: nat,
    enabled: bool,
    color: Color,
    n: nat,
)
    requires
        n >= 1,
    ensures
        glance_row(left, right, width, enabled, color, 0).is_prefix_of(glance_rows(left, right, width, enabled, color, n)),
    decreases n,
{
    let first = glance_row(left, right, width, enabled, color, 0);
    if n == 1 {
        assert(glance_rows(left, right, width, enabled, color, 0) == Seq::<char>::empty());
        assert(glance_rows(left, right, width, enabled, color, 1) == Seq::<char>::empty() + first);
        assert(Seq::<char>::empty() + first =~= first);
    } else {
        lemma_first_row_leads(left, right, width, enabled, color, (n - 1) as nat);
        let before = glance_rows(left, right, width, enabled, color, (n - 1) as nat);
        let whole = glance_rows(left, right, width, enabled, color, n);
        assert(whole == before + glance_row(left, right, width, enabled, color, n - 1));
        assert(first =~= whole.subrange(0, first.len() as int)) by {
            assert(first =~= before.subrange(0, first.len() as int));
        }
    }
}

/// The creature is painted in the pose's own colour whenever the pose has
/// one; in the sprite's colour only for a pose without one; in the
/// speaker's colour when neither has one. With styling on, the glance opens
/// with the creature's first row wrapped in that colour; with styling off,
/// with the bare row.
pub proof fn lemma_creature_tint(art: Pose, sprite: Sprite, right: Seq<Seq<char>>)
    requires
        art_rows(art.art@).len() > 0,
    ensures
        art.color is Some ==> (fg_open(""@, art.color->0) + art_rows(art.art@)[0] + reset_seq()).is_prefix_of(
            glance(art, sprite, right, true),
        ),
        art.color is None && sprite.color is Some ==> (fg_open(""@, sprite.color->0) + art_rows(art.art@)[0]
            + reset_seq()).is_prefix_of(glance(art, sprite, right, true)),
        art.color is None && sprite.color is None ==> (fg_open(""@, speaker_color()) + art_rows(art.art@)[0]
            + reset_seq()).is_prefix_of(glance(art, sprite, right, true)),
        art_rows(art.art@)[0].is_prefix_of(glance(art, sprite, right, false)),
{
    broadcast use vstd::seq_lib::group_filter_ensures;

    let left = art_rows(art.art@);
    assert(left.contains(left[0]));
    assert(left[0].len() > 0);
    let color = match tint(sprite, art) {
        Some(c) => c,
        None => speaker_color(),
    };
    let height = if left.len() >= right.len() { left.len() } else { right.len() };
    let w = widest(left);
    lemma_first_row_leads(left, right, w, true, color, height);
    lemma_first_row_leads(left, right, w, false, color, height);
    let row_on = glance_row(left, right, w, true, color, 0);
    let row_off = glance_row(left, right, w, false, color, 0);
    let lead_on = fg_open(""@, color) + left[0] + reset_seq();
    assert(lead_on =~= row_on.subrange(0, lead_on.len() as int));
    assert(left[0] =~= row_off.subrange(0, left[0].len() as int));
    let g_on = glance(art, sprite, right, true);
    let g_off = glance(art, sprite, right, false);
    assert(lead_on =~= g_on.subrange(0, lead_on.len() as int)) by {
        assert(row_on =~= g_on.subrange(0, row_on.len() as int));
    }
    assert(left[0] =~= g_off.subrange(0, left[0].len() as int)) by {
        assert(row_off =~= g_off.subrange(0, row_off.len() as int));
    }
}

proof fn lemma_line_state_bounded(s: Seq<char>)
    ensures
        forall|i: int| 0 <= i < line_state(s).0.len() ==> #[trigger] line_state(s).0[i].len() <= s.len(),
        line_state(s).1.len() <= s.len(),
    decreases s.len(),
{
    if s.len() > 0 {
        lemma_line_state_bounded(s.drop_last());
    }
}

proof fn lemma_art_rows_bounded(s: Seq<char>)
    ensures
        forall|i: int| 0 <= i < art_rows(s).len() ==> #[trigger] art_rows(s)[i].len() <= s.len(),
{
    broadcast use vstd::seq_lib::group_filter_ensures;

    lemma_line_state_bounded(s);
    let ls = lines_of(s);
    assert forall|i: int| 0 <= i < art_rows(s).len() implies #[trigger] art_rows(s)[i].len() <= s.len() by {
        let x = art_rows(s)[i];
        assert(art_rows(s).contains(x));
        ls.lemma_filter_contains_rev(|l: Seq<char>| l.len() > 0, x);
        assert(ls.contains(x));
        let j = choose|j: int| 0 <= j < ls.len() && ls[j] == x;
        if j < line_state(s).0.len() {
            assert(line_state(s).0[j] == x);
        }
    }
}

proof fn lemma_widest_bounded(rows: Seq<Seq<char>>, bound: nat)
    requires
        forall|i: int| 0 <= i < rows.len() ==> #[trigger] rows[i].len() <= bound,
    ensures
        widest(rows) <= bound,
        forall|i: int| 0 <= i < rows.len() ==> visual_width_of(#[trigger] rows[i]) <= widest(rows),
    decreases rows.len(),
{
    if rows.len() > 0 {
        lemma_widest_bounded(rows.drop_last(), bound);
        lemma_width_scan_bounded(rows.last());
        assert forall|i: int| 0 <= i < rows.len() implies visual_width_of(#[trigger] rows[i]) <= widest(rows) by {
            if i < rows.len() - 1 {
                assert(rows[i] == rows.drop_last()[i]);
            }
        }
    }
}

/// The non-empty lines of the creature's art.
fn art_rows_of(art: &str) -> (left: Vec<String>)
    ensures
        views(left@) == art_rows(art@),
{
    let all_lines = lines(art);
    let ghost pred = |l: Seq<char>| l.len() > 0;
    let mut left: Vec<String> = Vec::new();
    let mut k: usize = 0;
    while k < all_lines.len()
        invariant
            pred == (|l: Seq<char>| l.len() > 0),
            k <= all_lines@.len(),
            views(all_lines@) == lines_of(art@),
            views(left@) == views(all_lines@).take(k as int).filter(pred),
        decreases all_lines.len() - k,
    {
        proof {
            let t = views(all_lines@).take(k as int);
            t.lemma_filter_push(all_lines@[k as int]@, pred);
            assert(views(all_lines@).take(k + 1) =~= t.push(all_lines@[k as int]@));
        }
        let l = all_lines[k].as_str();
        let ghost before = left@;
        if l.unicode_len() > 0 {
            let copy = String::from_str(l);
            left.push(copy);
            assert(views(left@) =~= views(before).push(copy@));
        }
        k = k + 1;
    }
    assert(views(all_lines@).take(all_lines@.len() as int) =~= views(all_lines@));
    left
}

/// The widest visual width among the rows, no line being longer than
/// `bound` characters.
fn widest_width(left: &Vec<String>, bound: Ghost<nat>) -> (width: usize)
    requires
        forall|i: int| 0 <= i < left@.len() ==> #[trigger] left@[i]@.len() <= bound@,
    ensures
        width == widest(views(left@)),
        width <= bound@,
        forall|m: int| 0 <= m < left@.len() ==> visual_width_of(#[trigger] left@[m]@) <= width,
{
    let ghost rows = views(left@);
    proof {
        assert forall|i: int| 0 <= i < rows.len() implies #[trigger] rows[i].len() <= bound@ by {
            assert(rows[i] == left@[i]@);
        }
        lemma_widest_bounded(rows, bound@);
    }
    let mut width: usize = 0;
    let mut j: usize = 0;
    while j < left.len()
        invariant
            j <= left@.len(),
            views(left@) == rows,
            width == widest(rows.take(j as int)),
        decreases left.len() - j,
    {
        assert(rows.take(j + 1).drop_last() =~= rows.take(j as int));
        assert(rows[j as int] == left@[j as int]@);
        let x = visual_width(left[j].as_str());
        if x > width {
            width = x;
        }
        j = j + 1;
    }
    assert(rows.take(rows.len() as int) =~= rows);
    assert forall|m: int| 0 <= m < left@.len() implies visual_width_of(#[trigger] left@[m]@) <= width by {
        assert(rows[m] == left@[m]@);
    }
    width
}

/// Lays out the glance: the creature's art on the left, tinted, the header,
/// observations and the creature's line on the right.
pub fn render(
    ctx: &Context,
    sprite: &Sprite,
    art: &Pose,
    observations: &Vec<Observation>,
    voice: &str,
    cfg: &Config,
    theme: &Theme,
) -> (r: String)
    requires
        art.art@.len() + GUTTER <= usize::MAX,
    ensures
        r@ == glance(
            *art,
            *sprite,
            right_column(
                header_line(*ctx, *cfg, *theme, clock_text(*ctx)),
                observations@,
                voice_row(*sprite, voice@, *theme),
                *theme,
            ),
            theme.enabled,
        ),
{
    let creature_color = match pose_color(sprite, art) {
        Some(c) => c,
        None => speaker_color(),
    };
    let left = art_rows_of(art.art.as_str());
    let ghost rows = art_rows(art.art@);
    proof {
        lemma_art_rows_bounded(art.art@);
        assert forall|i: int| 0 <= i < left@.len() implies #[trigger] left@[i]@.len() <= art.art@.len() by {
            assert(rows[i] == left@[i]@);
        }
    }
    let width = widest_width(&left, Ghost(art.art@.len()));
    let right = build_right_lines(ctx, sprite, observations, voice, cfg, theme);
    let ghost rv = views(right@);
    let height = if left.len() >= right.len() { left.len() } else { right.len() };
    let mut out = String::new();
    let mut i: usize = 0;
    while i < height
        invariant
            i <= height,
            height == (if rows.len() >= rv.len() { rows.len() } else { rv.len() }),
            views(left@) == rows,
            views(right@) == rv,
            width == widest(rows),
            width + GUTTER <= usize::MAX,
            forall|m: int| 0 <= m < rows.len() ==> visual_width_of(#[trigger] rows[m]) <= width,
            out@ == glance_rows(rows, rv, width as nat, theme.enabled, creature_color, i as nat),
        decreases height - i,
    {
        assert forall|m: int| 0 <= m < left@.len() implies visual_width_of(#[trigger] left@[m]@) <= width by {
            assert(rows[m] == left@[m]@);
        }
        let row = glance_row_text(&left, &right, width, theme, creature_color, i);
        out.append(row.as_str());
        i = i + 1;
    }
    out
}

/// Row `i` of the glance.
fn glance_row_text(
    left: &Vec<String>,
    right: &Vec<String>,
    width: usize,
    theme: &Theme,
    color: Color,
    i: usize,
) -> (r: String)
    requires
        width + GUTTER <= usize::MAX,
        forall|m: int| 0 <= m < left@.len() ==> visual_width_of(#[trigger] left@[m]@) <= width,
    ensures
        r@ == glance_row(views(left@), views(right@), width as nat, theme.enabled, color, i as int),
{
    let raw: &str = if i < left.len() { left[i].as_str() } else { "" };
    proof {
        reveal_strlit("");
        if i < left.len() {
            assert(views(left@)[i as int] == left@[i as int]@);
        } else {
            assert(raw@ =~= Seq::<char>::empty());
            assert(visual_width_of(raw@) == 0);
        }
    }
    let mut out = if raw.unicode_len() == 0 {
        String::new()
    } else {
        theme.fg(color, raw)
    };
    let vw = visual_width(raw);
    let pad = (if width >= vw { width - vw } else { 0 }) + GUTTER;
    push_spaces(&mut out, pad);
    if i < right.len() {
        assert(views(right@)[i as int] == right@[i as int]@);
        out.append(right[i].as_str());
    }
    push_char(&mut out, '\n');
    out
}

} // verus!
