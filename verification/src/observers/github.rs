//! The GitHub observer: review requests and notifications, by way of `gh`.

use vstd::prelude::*;
use crate::observers::git::{parse_lr, parsed_pair};
use crate::state::{observation, obs_views, quiet, ObservationView, Observation, Reading, Signals, SignalsView};
use crate::text::{chars_of, decimal, parse_uint, parsed_uint, push_decimal, trim, trimmed};
use crate::voice::plural;

verus! {

broadcast use vstd::seq_lib::group_seq_properties;

/// The GitHub observer.
pub struct Github;

/// How long, in seconds, cached counts stay fresh.
pub const CACHE_TTL_SECS: u64 = 60;

/// The observations for `reviews` review requests and `notifs`
/// notifications.
pub open spec fn github_observations(counts: Option<(u32, u32)>) -> Seq<ObservationView> {
    match counts {
        None => Seq::empty(),
        Some((reviews, notifs)) => {
            (if reviews > 0 {
                seq![ObservationView {
                    priority: 75,
                    tag: "gh"@,
                    line: decimal(reviews as nat) + " review request"@ + plural(reviews as int),
                }]
            } else {
                Seq::empty()
            }) + (if notifs > 0 {
                seq![ObservationView {
                    priority: 50,
                    tag: "gh"@,
                    line: decimal(notifs as nat) + " notification"@ + plural(notifs as int),
                }]
            } else {
                Seq::empty()
            })
        },
    }
}

/// The signals for the counts, if `gh` could give them.
pub open spec fn github_signals(counts: Option<(u32, u32)>) -> SignalsView {
    match counts {
        None => quiet(),
        Some((reviews, notifs)) => SignalsView { gh_review_requests: reviews, gh_notifications: notifs, ..quiet() },
    }
}

fn counted_plural(n: u32, what: &str) -> (r: String)
    ensures
        r@ == decimal(n as nat) + what@ + plural(n as int),
{
    let mut out = String::new();
    push_decimal(&mut out, n as u64);
    out.append(what);
    out.append(if n == 1 { "" } else { "s" });
    out
}

impl Github {
    /// The reading of the GitHub observer, from the review requests and
    /// notifications counted (from the cache or from `gh`), or `None` where
    /// `gh` is not installed.
    pub fn reading(&self, counts: Option<(u32, u32)>) -> (r: Reading)
        ensures
            obs_views(r.observations@) == github_observations(counts),
            r.signals@ == github_signals(counts),
    {
        match counts {
            None => {
                let r = Reading::default();
                assert(obs_views(r.observations@) =~= Seq::<ObservationView>::empty());
                r
            },
            Some((reviews, notifs)) => {
                let mut sig = Signals::default();
                sig.gh_review_requests = reviews;
                sig.gh_notifications = notifs;
                let mut obs: Vec<Observation> = Vec::new();
                if reviews > 0 {
                    obs.push(observation(75, "gh", counted_plural(reviews, " review request")));
                }
                if notifs > 0 {
                    obs.push(observation(50, "gh", counted_plural(notifs, " notification")));
                }
                assert(obs_views(obs@) =~= github_observations(counts));
                Reading { observations: obs, signals: sig }
            },
        }
    }
}

/// What the GitHub observer learns, step by step.
#[derive(Debug, Clone, Copy, PartialEq, Eq)]
pub enum GhEvent {
    /// The fresh cached counts, if any.
    Cache(Option<(u32, u32)>),
    /// Whether `gh` is installed.
    Installed(bool),
    /// The review requests and notifications `gh` counted (`None` where a
    /// query failed).
    Counted(Option<u32>, Option<u32>),
}

/// What the GitHub observer does next.
#[derive(Debug, Clone, Copy, PartialEq, Eq)]
pub enum GhAction {
    /// Ask whether `gh` is installed.
    CheckInstalled,
    /// Count review requests and notifications with `gh`.
    Count,
    /// Write these counts to the cache, then show them.
    CacheAndShow(u32, u32),
    /// Show these counts (or nothing), and stop.
    Show(Option<(u32, u32)>),
}

/// The next action after an event: fresh cached counts are shown as they
/// are; without them `gh` is looked for; without `gh` nothing is shown;
/// counts from `gh` (0 for a failed query) are cached and shown.
pub open spec fn gh_next(ev: GhEvent) -> GhAction {
    match ev {
        GhEvent::Cache(Some(c)) => GhAction::Show(Some(c)),
        GhEvent::Cache(None) => GhAction::CheckInstalled,
        GhEvent::Installed(false) => GhAction::Show(None),
        GhEvent::Installed(true) => GhAction::Count,
        GhEvent::Counted(r, n) => GhAction::CacheAndShow(
            match r {
                Some(x) => x,
                None => 0,
            },
            match n {
                Some(x) => x,
                None => 0,
            },
        ),
    }
}

/// Decides what the GitHub observer does after an event.
pub fn github_next(ev: GhEvent) -> (a: GhAction)
    ensures
        a == gh_next(ev),
{
    match ev {
        GhEvent::Cache(Some(c)) => GhAction::Show(Some(c)),
        GhEvent::Cache(None) => GhAction::CheckInstalled,
        GhEvent::Installed(false) => GhAction::Show(None),
        GhEvent::Installed(true) => GhAction::Count,
        GhEvent::Counted(r, n) => GhAction::CacheAndShow(r.unwrap_or(0), n.unwrap_or(0)),
    }
}

/// A fresh cache is used as it is: `gh` is neither looked for nor asked.
pub proof fn lemma_fresh_cache_skips_gh(c: (u32, u32))
    ensures
        gh_next(GhEvent::Cache(Some(c))) == GhAction::Show(Some(c)),
{
}

/// Reads the cached counts: review requests, then notifications.
pub fn parse_cache(text: &str) -> (r: Option<(u32, u32)>)
    ensures
        r == parsed_pair(text@),
{
    parse_lr(text)
}

/// The number of non-overlapping occurrences of `pat` in `s`, from the left.
pub open spec fn occurrences(s: Seq<char>, pat: Seq<char>) -> nat
    decreases s.len(),
{
    if pat.len() == 0 || s.len() < pat.len() {
        0
    } else if s.take(pat.len() as int) == pat {
        1 + occurrences(s.skip(pat.len() as int), pat)
    } else {
        occurrences(s.drop_first(), pat)
    }
}

/// Whether `pat` occurs in `v` at `at`.
fn occurs_at(v: &Vec<char>, pat: &Vec<char>, at: usize) -> (r: bool)
    requires
        at + pat@.len() <= v@.len(),
    ensures
        r == (v@.subrange(at as int, at + pat@.len()) == pat@),
{
    let mut k: usize = 0;
    while k < pat.len()
        invariant
            at + pat@.len() <= v@.len(),
            v@.len() == v.len(),
            k <= pat@.len(),
            forall|m: int| 0 <= m < k ==> v@[at + m] == pat@[m],
        decreases pat.len() - k,
    {
        if v[at + k] != pat[k] {
            assert(v@.subrange(at as int, at + pat@.len())[k as int] != pat@[k as int]);
            return false;
        }
        k = k + 1;
    }
    assert(v@.subrange(at as int, at + pat@.len()) =~= pat@);
    true
}

/// Counts the non-overlapping occurrences of `pat` in `s` (`str::matches`).
pub fn count_matches(s: &str, pat: &str) -> (n: usize)
    ensures
        n == occurrences(s@, pat@),
{
    let v = chars_of(s);
    let p = chars_of(pat);
    if p.len() == 0 {
        return 0;
    }
    let mut n: usize = 0;
    let mut i: usize = 0;
    assert(v@.skip(0) =~= v@);
    while p.len() <= v.len() - i
        invariant
            v@ == s@,
            p@ == pat@,
            p@.len() > 0,
            i <= v@.len(),
            n + occurrences(v@.skip(i as int), p@) == occurrences(s@, pat@),
            n <= i,
        decreases v.len() - i,
    {
        let ghost rest = v@.skip(i as int);
        assert(rest.take(p@.len() as int) =~= v@.subrange(i as int, i + p@.len()));
        if occurs_at(&v, &p, i) {
            assert(rest.skip(p@.len() as int) =~= v@.skip(i + p@.len()));
            n = n + 1;
            i = i + p.len();
        } else {
            assert(rest.drop_first() =~= v@.skip(i + 1));
            i = i + 1;
        }
    }
    assert(occurrences(v@.skip(i as int), p@) == 0);
    n
}

/// The number of pull requests listed in `gh search prs --json url`: how
/// often the field name `"url"` occurs.
pub fn count_search_results(json: &str) -> (n: u32)
    ensures
        n == occurrences(json@, "\"url\""@) as u32,
{
    count_matches(json, "\"url\"") as u32
}

/// The number of notifications printed by `gh api notifications --jq length`.
pub fn parse_notifications(text: &str) -> (r: Option<u32>)
    ensures
        r == match parsed_uint(trimmed(text@), u32::MAX as nat) {
            Some(n) => Some(n as u32),
            None => None::<u32>,
        },
{
    let t = trim(text);
    match parse_uint(t.as_str(), u32::MAX as u64) {
        Some(n) => Some(n as u32),
        None => None,
    }
}

} // verus!
