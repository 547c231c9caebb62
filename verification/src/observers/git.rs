//! The git observer: branch, uncommitted changes, unpushed commits and
//! recent merges.

use vstd::prelude::*;
use crate::state::{observation, obs_views, quiet, ObservationView, Observation, Reading, Signals, SignalsView};
use crate::text::{
    chars_of, decimal, joined, lines, lines_of, parse_uint, parsed_uint, push_char, push_decimal,
    string_of, trim, trimmed, views, words, words_of,
};

verus! {

broadcast use vstd::seq_lib::group_seq_properties;

/// The git observer.
pub struct Git;

/// What git said about the working directory. Each text is the standard
/// output of a git command that succeeded, `None` where it failed.
#[derive(Debug)]
pub struct GitProbe {
    /// `git rev-parse --is-inside-work-tree` printed `true`.
    pub is_repo: bool,
    /// `git symbolic-ref --short HEAD`.
    pub symbolic_ref: Option<String>,
    /// `git rev-parse --abbrev-ref HEAD`.
    pub abbrev_ref: Option<String>,
    /// `git status --porcelain`.
    pub status: Option<String>,
    /// `git rev-list --left-right --count @{u}...HEAD`.
    pub upstream: Option<String>,
    /// `git rev-parse HEAD` succeeded.
    pub has_commits: bool,
    /// How long, in seconds, the oldest changed file has been modified.
    pub dirty_age_secs: Option<u64>,
    /// `git log -1 --merges --since=1.hour --format=%s`.
    pub last_merge: Option<String>,
}

/// `s` cut to `n` characters, the last one replaced by `…`, when it is
/// longer than `n`.
pub open spec fn truncated(s: Seq<char>, n: nat) -> Seq<char> {
    if s.len() <= n {
        s
    } else {
        s.take(n - 1).push('…')
    }
}

/// A cut string is never longer than the limit, and a short one is kept.
pub proof fn lemma_truncate_fits(s: Seq<char>, n: nat)
    requires
        n > 0,
    ensures
        truncated(s, n).len() <= n,
        s.len() <= n ==> truncated(s, n) == s,
{
}

/// Cuts `s` to at most `n` characters, ending a cut string with `…`.
pub fn truncate(s: &str, n: usize) -> (r: String)
    requires
        n > 0 || s@.len() == 0,
    ensures
        r@ == truncated(s@, n as nat),
{
    let v = chars_of(s);
    if v.len() <= n {
        assert(v@.subrange(0, v@.len() as int) =~= v@);
        string_of(&v, 0, v.len())
    } else {
        let mut out = string_of(&v, 0, n - 1);
        push_char(&mut out, '…');
        out
    }
}

/// The counts of commits behind and ahead of the upstream branch: the first
/// two words of `s`, each a `u32`.
pub open spec fn parsed_pair(s: Seq<char>) -> Option<(u32, u32)> {
    let w = words_of(s);
    if w.len() >= 2 && parsed_uint(w[0], u32::MAX as nat) is Some && parsed_uint(w[1], u32::MAX as nat) is Some {
        Some((parsed_uint(w[0], u32::MAX as nat)->0 as u32, parsed_uint(w[1], u32::MAX as nat)->0 as u32))
    } else {
        None
    }
}

/// Reads the first two whitespace-separated numbers of `s`.
pub fn parse_lr(s: &str) -> (r: Option<(u32, u32)>)
    ensures
        r == parsed_pair(s@),
{
    let w = words(s);
    if w.len() < 2 {
        return None;
    }
    assert(views(w@)[0] == w@[0]@);
    assert(views(w@)[1] == w@[1]@);
    let first = match parse_uint(w[0].as_str(), u32::MAX as u64) {
        Some(x) => x,
        None => return None,
    };
    let second = match parse_uint(w[1].as_str(), u32::MAX as u64) {
        Some(x) => x,
        None => return None,
    };
    Some((first as u32, second as u32))
}

/// The name shown for the branch: git's answer trimmed, else `detached`
/// in a repository with commits, else `no commits yet`.
pub open spec fn branch_name(p: GitProbe) -> Seq<char> {
    let raw = match p.symbolic_ref {
        Some(s) => Some(s),
        None => p.abbrev_ref,
    };
    match raw {
        Some(s) => if trimmed(s@).len() > 0 {
            trimmed(s@)
        } else if p.has_commits {
            "detached"@
        } else {
            "no commits yet"@
        },
        None => if p.has_commits {
            "detached"@
        } else {
            "no commits yet"@
        },
    }
}

/// The number of non-empty lines of `s`.
pub open spec fn nonempty_lines(s: Seq<char>) -> nat {
    lines_of(s).filter(|l: Seq<char>| l.len() > 0).len()
}

/// The number of changed files that `git status --porcelain` listed.
pub open spec fn dirty_count_of(p: GitProbe) -> u32 {
    match p.status {
        Some(s) => nonempty_lines(s@) as u32,
        None => 0,
    }
}

/// Commits behind and ahead of upstream (none where unknown).
pub open spec fn behind_ahead(p: GitProbe) -> (u32, u32) {
    match p.upstream {
        Some(u) => match parsed_pair(u@) {
            Some(x) => x,
            None => (0, 0),
        },
        None => (0, 0),
    }
}

/// The parts of the git line: branch, changes, then what is ahead and
/// behind when anything is.
pub open spec fn git_parts(p: GitProbe) -> Seq<Seq<char>> {
    let d = dirty_count_of(p);
    let (behind, ahead) = behind_ahead(p);
    seq![branch_name(p), if d > 0 { decimal(d as nat) + " changed"@ } else { "clean"@ }]
        + (if ahead > 0 { seq![decimal(ahead as nat) + " ahead"@] } else { Seq::empty() })
        + (if behind > 0 { seq![decimal(behind as nat) + " behind"@] } else { Seq::empty() })
}

/// The merge subject, when a merge landed in the last hour.
pub open spec fn recent_merge_subject(p: GitProbe) -> Option<Seq<char>> {
    match p.last_merge {
        Some(m) => if trimmed(m@).len() > 0 { Some(trimmed(m@)) } else { None },
        None => None,
    }
}

/// The observations of the git observer.
pub open spec fn git_observations(p: GitProbe) -> Seq<ObservationView> {
    if !p.is_repo {
        Seq::empty()
    } else {
        let d = dirty_count_of(p);
        let (behind, ahead) = behind_ahead(p);
        let status = ObservationView {
            priority: if d > 0 || ahead > 0 || behind > 0 { 70 } else { 40 },
            tag: "git"@,
            line: joined(git_parts(p), " · "@),
        };
        match recent_merge_subject(p) {
            Some(m) => seq![status, ObservationView { priority: 60, tag: "git"@, line: "merged: "@ + truncated(m, 40) }],
            None => seq![status],
        }
    }
}

/// The signals of the git observer.
pub open spec fn git_signals(p: GitProbe) -> SignalsView {
    if !p.is_repo {
        quiet()
    } else {
        let d = dirty_count_of(p);
        SignalsView {
            in_git_repo: true,
            dirty_count: d,
            dirty_since: if d > 0 { p.dirty_age_secs } else { None },
            unpushed: behind_ahead(p).1,
            branch: Some(branch_name(p)),
            recent_merge: recent_merge_subject(p) is Some,
            ..quiet()
        }
    }
}

fn count_nonempty_lines(s: &str) -> (n: usize)
    ensures
        n == nonempty_lines(s@),
{
    let ls = lines(s);
    let ghost pred = |l: Seq<char>| l.len() > 0;
    let ghost all = views(ls@);
    let mut n: usize = 0;
    let mut i: usize = 0;
    while i < ls.len()
        invariant
            pred == (|l: Seq<char>| l.len() > 0),
            all == views(ls@),
            all == lines_of(s@),
            i <= ls@.len(),
            n == all.take(i as int).filter(pred).len(),
            n <= i,
        decreases ls.len() - i,
    {
        proof {
            let t = all.take(i as int);
            t.lemma_filter_push(all[i as int], pred);
            assert(all.take(i + 1) =~= t.push(all[i as int]));
            assert(all[i as int] == ls@[i as int]@);
        }
        if ls[i].as_str().unicode_len() > 0 {
            n = n + 1;
        }
        i = i + 1;
    }
    assert(all.take(all.len() as int) =~= all);
    n
}

fn branch_of(p: &GitProbe) -> (r: String)
    ensures
        r@ == branch_name(*p),
{
    let raw: Option<&String> = match &p.symbolic_ref {
        Some(s) => Some(s),
        None => match &p.abbrev_ref {
            Some(s) => Some(s),
            None => None,
        },
    };
    let fallback = if p.has_commits { "detached" } else { "no commits yet" };
    match raw {
        Some(s) => {
            let t = trim(s.as_str());
            if t.as_str().unicode_len() > 0 {
                t
            } else {
                String::from_str(fallback)
            }
        },
        None => String::from_str(fallback),
    }
}

fn counted(n: u32, what: &str) -> (r: String)
    ensures
        r@ == decimal(n as nat) + what@,
{
    let mut out = String::new();
    push_decimal(&mut out, n as u64);
    out.append(what);
    out
}

impl Git {
    /// The reading of the git observer, from what git said.
    pub fn reading(&self, p: &GitProbe) -> (r: Reading)
        ensures
            obs_views(r.observations@) == git_observations(*p),
            r.signals@ == git_signals(*p),
    {
        if !p.is_repo {
            let r = Reading::default();
            assert(obs_views(r.observations@) =~= Seq::<ObservationView>::empty());
            return r;
        }
        let mut sig = Signals::default();
        sig.in_git_repo = true;
        let branch = branch_of(p);
        sig.branch = Some(branch.clone());
        let dirty_count: u32 = match &p.status {
            Some(s) => count_nonempty_lines(s.as_str()) as u32,
            None => 0,
        };
        sig.dirty_count = dirty_count;
        if dirty_count > 0 {
            sig.dirty_since = p.dirty_age_secs;
        }
        let (behind, ahead) = match &p.upstream {
            Some(u) => match parse_lr(u.as_str()) {
                Some(x) => x,
                None => (0, 0),
            },
            None => (0, 0),
        };
        sig.unpushed = ahead;
        let mut parts: Vec<String> = Vec::new();
        parts.push(branch);
        if dirty_count > 0 {
            parts.push(counted(dirty_count, " changed"));
        } else {
            parts.push(String::from_str("clean"));
        }
        if ahead > 0 {
            parts.push(counted(ahead, " ahead"));
        }
        if behind > 0 {
            parts.push(counted(behind, " behind"));
        }
        assert(views(parts@) =~= git_parts(*p));
        let priority: u8 = if dirty_count > 0 || ahead > 0 || behind > 0 { 70 } else { 40 };
        let mut obs: Vec<Observation> = Vec::new();
        obs.push(observation(priority, "git", crate::text::join(&parts, " · ")));
        match &p.last_merge {
            Some(out) => {
                let t = trim(out.as_str());
                if t.as_str().unicode_len() > 0 {
                    sig.recent_merge = true;
                    let mut line = String::from_str("merged: ");
                    let cut = truncate(t.as_str(), 40);
                    line.append(cut.as_str());
                    obs.push(observation(60, "git", line));
                }
            },
            None => {},
        }
        assert(obs_views(obs@) =~= git_observations(*p));
        Reading { observations: obs, signals: sig }
    }
}

// ── Age of the oldest change ────────────────────────────────────────

/// A point in time as seconds and nanoseconds from the Unix epoch (the
/// seconds may be negative, the nanoseconds are below one billion).
pub open spec fn instant(t: (i64, u32)) -> int {
    t.0 * 1_000_000_000 + t.1
}

/// Whether every time of `ts` has its nanoseconds below one billion.
pub open spec fn well_formed_times(ts: Seq<(i64, u32)>) -> bool {
    forall|i: int| 0 <= i < ts.len() ==> #[trigger] ts[i].1 < 1_000_000_000
}

/// The earliest of the nonempty `ts`.
pub open spec fn earliest(ts: Seq<(i64, u32)>) -> int
    decreases ts.len(),
{
    if ts.len() <= 1 {
        instant(ts[0])
    } else {
        let e = earliest(ts.drop_last());
        if instant(ts.last()) < e { instant(ts.last()) } else { e }
    }
}

/// How long, in whole seconds, the earliest of the modification times `ts`
/// lies before `now`: `None` for no time, or where the earliest lies after
/// `now` (`SystemTime::duration_since` fails then).
pub open spec fn oldest_age(ts: Seq<(i64, u32)>, now: (i64, u32)) -> Option<u64> {
    if ts.len() == 0 || instant(now) < earliest(ts) {
        None
    } else {
        Some(((instant(now) - earliest(ts)) / 1_000_000_000) as u64)
    }
}

/// The age, in whole seconds, of the oldest of the changed files' modification
/// times `mtimes` at `now`.
pub fn oldest_change_age(mtimes: &Vec<(i64, u32)>, now: (i64, u32)) -> (r: Option<u64>)
    requires
        well_formed_times(mtimes@),
        now.1 < 1_000_000_000,
    ensures
        r == oldest_age(mtimes@, now),
{
    if mtimes.len() == 0 {
        return None;
    }
    let mut oldest: i128 = mtimes[0].0 as i128 * 1_000_000_000 + mtimes[0].1 as i128;
    let mut i: usize = 1;
    assert(mtimes@.take(1).len() == 1);
    while i < mtimes.len()
        invariant
            1 <= i <= mtimes@.len(),
            well_formed_times(mtimes@),
            oldest == earliest(mtimes@.take(i as int)),
            i64::MIN as int * 1_000_000_000 <= oldest <= i64::MAX as int * 1_000_000_000 + 999_999_999,
        decreases mtimes.len() - i,
    {
        assert(mtimes@.take(i + 1).drop_last() =~= mtimes@.take(i as int));
        let t: i128 = mtimes[i].0 as i128 * 1_000_000_000 + mtimes[i].1 as i128;
        if t < oldest {
            oldest = t;
        }
        i = i + 1;
    }
    assert(mtimes@.take(mtimes@.len() as int) =~= mtimes@);
    let n: i128 = now.0 as i128 * 1_000_000_000 + now.1 as i128;
    if n < oldest {
        return None;
    }
    let age: i128 = (n - oldest) / 1_000_000_000;
    assert(age <= u64::MAX) by (nonlinear_arith)
        requires
            age == (n - oldest) / 1_000_000_000,
            n <= i64::MAX as int * 1_000_000_000 + 999_999_999,
            oldest >= i64::MIN as int * 1_000_000_000,
            n >= oldest;
    Some(age as u64)
}

// ── Paths of changed files ──────────────────────────────────────────

/// The number of bytes in the UTF-8 encoding of `c`.
pub open spec fn utf8_width(c: char) -> nat {
    if (c as u32) < 0x80 {
        1
    } else if (c as u32) < 0x800 {
        2
    } else if (c as u32) < 0x10000 {
        3
    } else {
        4
    }
}

/// The number of bytes in the UTF-8 encoding of `s` (`str::len`).
pub open spec fn utf8_len(s: Seq<char>) -> nat
    decreases s.len(),
{
    if s.len() == 0 {
        0
    } else {
        utf8_width(s[0]) + utf8_len(s.drop_first())
    }
}

/// The characters of `s` after its first `n` bytes, where a character
/// starts there (`&s[n..]`); `None` where byte `n` falls inside a character
/// or past the end.
pub open spec fn after_bytes(s: Seq<char>, n: nat) -> Option<Seq<char>>
    decreases s.len(),
{
    if n == 0 {
        Some(s)
    } else if s.len() == 0 || utf8_width(s[0]) > n {
        None
    } else {
        after_bytes(s.drop_first(), (n - utf8_width(s[0])) as nat)
    }
}

/// `s` without its leading `'"'`s.
pub open spec fn strip_quotes_start(s: Seq<char>) -> Seq<char>
    decreases s.len(),
{
    if s.len() > 0 && s[0] == '"' {
        strip_quotes_start(s.drop_first())
    } else {
        s
    }
}

/// `s` without its trailing `'"'`s.
pub open spec fn strip_quotes_end(s: Seq<char>) -> Seq<char>
    decreases s.len(),
{
    if s.len() > 0 && s.last() == '"' {
        strip_quotes_end(s.drop_last())
    } else {
        s
    }
}

/// The path in a line of `git status --porcelain`: what follows the
/// three-byte status, without surrounding quotes; `None` for a line of
/// fewer than four bytes.
pub open spec fn changed_path(line: Seq<char>) -> Option<Seq<char>> {
    if utf8_len(line) < 4 {
        None
    } else {
        Some(strip_quotes_end(strip_quotes_start(after_bytes(line, 3)->0)))
    }
}

fn width_of(c: char) -> (w: usize)
    ensures
        w == utf8_width(c),
{
    let x = c as u32;
    if x < 0x80 {
        1
    } else if x < 0x800 {
        2
    } else if x < 0x10000 {
        3
    } else {
        4
    }
}

proof fn lemma_utf8_len_skip(s: Seq<char>, i: int)
    requires
        0 <= i < s.len(),
    ensures
        utf8_len(s.skip(i)) == utf8_width(s[i]) + utf8_len(s.skip(i + 1)),
{
    assert(s.skip(i).drop_first() =~= s.skip(i + 1));
}

/// Whether the characters `v` take at least four bytes in UTF-8.
fn at_least_four_bytes(v: &Vec<char>) -> (r: bool)
    ensures
        r == (utf8_len(v@) >= 4),
{
    let mut acc: usize = 0;
    let mut i: usize = 0;
    assert(v@.skip(0) =~= v@);
    while i < v.len() && acc < 4
        invariant
            i <= v@.len(),
            acc <= 7,
            acc + utf8_len(v@.skip(i as int)) == utf8_len(v@),
        decreases v.len() - i,
    {
        proof {
            lemma_utf8_len_skip(v@, i as int);
        }
        acc = acc + width_of(v[i]);
        i = i + 1;
    }
    if acc < 4 {
        assert(v@.skip(i as int) =~= Seq::<char>::empty());
    }
    acc >= 4
}

/// The index of the first character after the first three bytes of `v`.
fn after_three_bytes(v: &Vec<char>) -> (k: usize)
    requires
        after_bytes(v@, 3) is Some,
    ensures
        k <= v@.len(),
        after_bytes(v@, 3) == Some(v@.skip(k as int)),
{
    let mut skipped: usize = 0;
    let mut k: usize = 0;
    assert(v@.skip(0) =~= v@);
    while skipped < 3
        invariant
            k <= v@.len(),
            skipped <= 3,
            after_bytes(v@, 3) is Some,
            after_bytes(v@.skip(k as int), (3 - skipped) as nat) == after_bytes(v@, 3),
        decreases 3 - skipped,
    {
        let ghost rest = v@.skip(k as int);
        assert(rest.len() > 0);
        assert(k < v.len());
        assert(rest[0] == v@[k as int]);
        assert(rest.drop_first() =~= v@.skip(k + 1));
        skipped = skipped + width_of(v[k]);
        k = k + 1;
    }
    k
}

/// The characters `v[from..]` without leading and trailing `'"'`s.
fn unquoted(v: &Vec<char>, from: usize) -> (r: String)
    requires
        from <= v@.len(),
    ensures
        r@ == strip_quotes_end(strip_quotes_start(v@.skip(from as int))),
{
    let k = from;
    let mut from = from;
    assert(v@.skip(k as int) =~= v@.subrange(k as int, v@.len() as int));
    while from < v.len() && v[from] == '"'
        invariant
            k <= from <= v@.len(),
            strip_quotes_start(v@.skip(k as int)) == strip_quotes_start(v@.subrange(from as int, v@.len() as int)),
        decreases v.len() - from,
    {
        assert(v@.subrange(from as int, v@.len() as int).drop_first() =~= v@.subrange(from + 1, v@.len() as int));
        from = from + 1;
    }
    let ghost t = v@.subrange(from as int, v@.len() as int);
    assert(strip_quotes_start(t) == t);
    let mut to = v.len();
    assert(t =~= v@.subrange(from as int, to as int));
    while to > from && v[to - 1] == '"'
        invariant
            from <= to <= v@.len(),
            strip_quotes_end(t) == strip_quotes_end(v@.subrange(from as int, to as int)),
        decreases to - from,
    {
        assert(v@.subrange(from as int, to as int).drop_last() =~= v@.subrange(from as int, to - 1));
        to = to - 1;
    }
    string_of(v, from, to)
}

/// The path that a line of `git status --porcelain` names, or `None` for a
/// line too short to name one. The status must end on a character boundary
/// (slicing the line there would panic otherwise).
pub fn porcelain_path(line: &str) -> (r: Option<String>)
    requires
        utf8_len(line@) < 4 || after_bytes(line@, 3) is Some,
    ensures
        match r {
            Some(p) => changed_path(line@) == Some(p@),
            None => changed_path(line@) is None,
        },
{
    let v = chars_of(line);
    if !at_least_four_bytes(&v) {
        return None;
    }
    let k = after_three_bytes(&v);
    Some(unquoted(&v, k))
}

} // verus!
