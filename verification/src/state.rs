//! What the observers report: signals that steer the creature's mood,
//! and one-line observations for the glance.

use vstd::prelude::*;
use crate::config::{opt_view, Config};

verus! {

broadcast use {vstd::seq_lib::group_seq_properties, vstd::seq_lib::group_to_multiset_ensures};

/// The moment and the person the glance is for.
#[derive(Debug)]
pub struct Context {
    /// Today's date as a count of days, 1 being January 1 of year 1 in the
    /// proleptic Gregorian calendar.
    pub today: i32,
    /// The hour of the day (0 to 23).
    pub hour: u32,
    /// The minute of the hour (0 to 59).
    pub minute: u32,
    /// The login name of the user.
    pub user: String,
    pub cfg: Config,
}

/// What the logic reads of an outside temperature in degrees Celsius.
#[derive(Debug, Clone, Copy, PartialEq, Eq, Structural)]
pub struct Temperature {
    /// The temperature rounded to the nearest degree, halves away from zero.
    pub rounded: i32,
    /// Whether it is below 0 °C.
    pub below_zero: bool,
    /// Whether it is below 5 °C.
    pub below_five: bool,
}

/// The signals that the observers report.
#[derive(Debug)]
pub struct Signals {
    pub in_git_repo: bool,
    pub dirty_count: u32,
    /// How long, in seconds, the oldest uncommitted change has waited.
    pub dirty_since: Option<u64>,
    pub unpushed: u32,
    pub branch: Option<String>,
    pub battery_pct: Option<u8>,
    pub on_ac: Option<bool>,
    pub disk_pct_used: Option<u8>,
    pub temp_c: Option<Temperature>,
    pub gh_review_requests: u32,
    pub gh_notifications: u32,
    pub recent_merge: bool,
    pub streak_days: u32,
    pub streak_milestone: bool,
    pub event_in_minutes: Option<i64>,
    pub event_title: Option<String>,
}

/// No signal at all.
pub open spec fn no_signals() -> Signals {
    Signals {
        in_git_repo: false,
        dirty_count: 0,
        dirty_since: None,
        unpushed: 0,
        branch: None,
        battery_pct: None,
        on_ac: None,
        disk_pct_used: None,
        temp_c: None,
        gh_review_requests: 0,
        gh_notifications: 0,
        recent_merge: false,
        streak_days: 0,
        streak_milestone: false,
        event_in_minutes: None,
        event_title: None,
    }
}

impl Default for Signals {
    fn default() -> (s: Self)
        ensures
            s == no_signals(),
    {
        Signals {
            in_git_repo: false,
            dirty_count: 0,
            dirty_since: None,
            unpushed: 0,
            branch: None,
            battery_pct: None,
            on_ac: None,
            disk_pct_used: None,
            temp_c: None,
            gh_review_requests: 0,
            gh_notifications: 0,
            recent_merge: false,
            streak_days: 0,
            streak_milestone: false,
            event_in_minutes: None,
            event_title: None,
        }
    }
}

/// The signals as values.
pub struct SignalsView {
    pub in_git_repo: bool,
    pub dirty_count: u32,
    pub dirty_since: Option<u64>,
    pub unpushed: u32,
    pub branch: Option<Seq<char>>,
    pub battery_pct: Option<u8>,
    pub on_ac: Option<bool>,
    pub disk_pct_used: Option<u8>,
    pub temp_c: Option<Temperature>,
    pub gh_review_requests: u32,
    pub gh_notifications: u32,
    pub recent_merge: bool,
    pub streak_days: u32,
    pub streak_milestone: bool,
    pub event_in_minutes: Option<i64>,
    pub event_title: Option<Seq<char>>,
}

impl View for Signals {
    type V = SignalsView;

    open spec fn view(&self) -> SignalsView {
        SignalsView {
            in_git_repo: self.in_git_repo,
            dirty_count: self.dirty_count,
            dirty_since: self.dirty_since,
            unpushed: self.unpushed,
            branch: opt_view(self.branch),
            battery_pct: self.battery_pct,
            on_ac: self.on_ac,
            disk_pct_used: self.disk_pct_used,
            temp_c: self.temp_c,
            gh_review_requests: self.gh_review_requests,
            gh_notifications: self.gh_notifications,
            recent_merge: self.recent_merge,
            streak_days: self.streak_days,
            streak_milestone: self.streak_milestone,
            event_in_minutes: self.event_in_minutes,
            event_title: opt_view(self.event_title),
        }
    }
}

/// No signal at all, as values.
pub open spec fn quiet() -> SignalsView {
    no_signals()@
}

/// `a` with the signals of `b` laid over it: a flag set in either stays
/// set, a count or an optional value of `b` wins where `b` has one
/// (nonzero, or present), and the upcoming event and its title come
/// together from `b` when `b` knows of an event.
pub open spec fn merged(a: Signals, b: Signals) -> Signals {
    Signals {
        in_git_repo: a.in_git_repo || b.in_git_repo,
        dirty_count: if b.dirty_count > 0 { b.dirty_count } else { a.dirty_count },
        dirty_since: if b.dirty_since is Some { b.dirty_since } else { a.dirty_since },
        unpushed: if b.unpushed > 0 { b.unpushed } else { a.unpushed },
        branch: if b.branch is Some { b.branch } else { a.branch },
        battery_pct: if b.battery_pct is Some { b.battery_pct } else { a.battery_pct },
        on_ac: if b.on_ac is Some { b.on_ac } else { a.on_ac },
        disk_pct_used: if b.disk_pct_used is Some { b.disk_pct_used } else { a.disk_pct_used },
        temp_c: if b.temp_c is Some { b.temp_c } else { a.temp_c },
        gh_review_requests: if b.gh_review_requests > 0 { b.gh_review_requests } else { a.gh_review_requests },
        gh_notifications: if b.gh_notifications > 0 { b.gh_notifications } else { a.gh_notifications },
        recent_merge: a.recent_merge || b.recent_merge,
        streak_days: if b.streak_days > 0 { b.streak_days } else { a.streak_days },
        streak_milestone: a.streak_milestone || b.streak_milestone,
        event_in_minutes: if b.event_in_minutes is Some { b.event_in_minutes } else { a.event_in_minutes },
        event_title: if b.event_in_minutes is Some { b.event_title } else { a.event_title },
    }
}

impl Signals {
    /// Lays the signals of `other` over these.
    pub fn merge(&mut self, other: Signals)
        ensures
            *final(self) == merged(*old(self), other),
    {
        let Signals {
            in_git_repo,
            dirty_count,
            dirty_since,
            unpushed,
            branch,
            battery_pct,
            on_ac,
            disk_pct_used,
            temp_c,
            gh_review_requests,
            gh_notifications,
            recent_merge,
            streak_days,
            streak_milestone,
            event_in_minutes,
            event_title,
        } = other;
        let new_branch = if branch.is_some() { branch } else { self.branch.take() };
        let has_event = event_in_minutes.is_some();
        let new_title = if has_event { event_title } else { self.event_title.take() };
        *self = Signals {
            in_git_repo: self.in_git_repo || in_git_repo,
            dirty_count: if dirty_count > 0 { dirty_count } else { self.dirty_count },
            dirty_since: if dirty_since.is_some() { dirty_since } else { self.dirty_since },
            unpushed: if unpushed > 0 { unpushed } else { self.unpushed },
            branch: new_branch,
            battery_pct: if battery_pct.is_some() { battery_pct } else { self.battery_pct },
            on_ac: if on_ac.is_some() { on_ac } else { self.on_ac },
            disk_pct_used: if disk_pct_used.is_some() { disk_pct_used } else { self.disk_pct_used },
            temp_c: if temp_c.is_some() { temp_c } else { self.temp_c },
            gh_review_requests: if gh_review_requests > 0 { gh_review_requests } else { self.gh_review_requests },
            gh_notifications: if gh_notifications > 0 { gh_notifications } else { self.gh_notifications },
            recent_merge: self.recent_merge || recent_merge,
            streak_days: if streak_days > 0 { streak_days } else { self.streak_days },
            streak_milestone: self.streak_milestone || streak_milestone,
            event_in_minutes: if has_event { event_in_minutes } else { self.event_in_minutes },
            event_title: new_title,
        };
    }
}

/// Merging is associative: readings can be merged in any grouping, as long
/// as their order is kept.
pub proof fn lemma_merge_associative(a: Signals, b: Signals, c: Signals)
    ensures
        merged(merged(a, b), c) == merged(a, merged(b, c)),
{
}

/// Merging signals into themselves changes nothing.
pub proof fn lemma_merge_idempotent(a: Signals)
    ensures
        merged(a, a) == a,
{
}

/// Merging in an empty reading changes nothing.
pub proof fn lemma_merge_empty_right(a: Signals)
    ensures
        merged(a, no_signals()) == a,
{
}

/// Merging signals into empty ones gives those signals, unless they carry
/// an event title without an event (the title alone is not taken over).
pub proof fn lemma_merge_empty_left(b: Signals)
    requires
        b.event_in_minutes is Some || b.event_title is None,
    ensures
        merged(no_signals(), b) == b,
{
}

/// One line of the glance, with the priority by which it is ranked.
#[derive(Debug)]
pub struct Observation {
    pub priority: u8,
    pub tag: String,
    pub line: String,
}

/// An observation as values.
pub struct ObservationView {
    pub priority: u8,
    pub tag: Seq<char>,
    pub line: Seq<char>,
}

impl View for Observation {
    type V = ObservationView;

    open spec fn view(&self) -> ObservationView {
        ObservationView { priority: self.priority, tag: self.tag@, line: self.line@ }
    }
}

/// The values of a sequence of observations.
pub open spec fn obs_views(s: Seq<Observation>) -> Seq<ObservationView> {
    s.map_values(|o: Observation| o@)
}

/// A new observation.
pub fn observation(priority: u8, tag: &str, line: String) -> (o: Observation)
    ensures
        o@ == (ObservationView { priority, tag: tag@, line: line@ }),
{
    Observation { priority, tag: String::from_str(tag), line }
}

impl Clone for Observation {
    fn clone(&self) -> (r: Self)
        ensures
            r == *self,
    {
        Observation { priority: self.priority, tag: self.tag.clone(), line: self.line.clone() }
    }
}

/// What one observer reports.
#[derive(Debug)]
pub struct Reading {
    pub observations: Vec<Observation>,
    pub signals: Signals,
}

impl Default for Reading {
    fn default() -> (r: Self)
        ensures
            r.observations@.len() == 0,
            r.signals == no_signals(),
    {
        Reading { observations: Vec::new(), signals: Signals::default() }
    }
}

/// The signals of `rs` merged in order, starting from none.
pub open spec fn merged_all(rs: Seq<Reading>) -> Signals
    decreases rs.len(),
{
    if rs.len() == 0 {
        no_signals()
    } else {
        merged(merged_all(rs.drop_last()), rs.last().signals)
    }
}

/// The observations of `rs`, reading after reading.
pub open spec fn all_observations(rs: Seq<Reading>) -> Seq<Observation>
    decreases rs.len(),
{
    if rs.len() == 0 {
        Seq::empty()
    } else {
        all_observations(rs.drop_last()) + rs.last().observations@
    }
}

proof fn lemma_fold_front(rs: Seq<Reading>, s: Signals, o: Seq<Observation>, i: int)
    requires
        0 <= i < rs.len(),
        s == merged_all(rs.take(i)),
        o == all_observations(rs.take(i)),
    ensures
        merged(s, rs[i].signals) == merged_all(rs.take(i + 1)),
        o + rs[i].observations@ == all_observations(rs.take(i + 1)),
{
    assert(rs.take(i + 1).drop_last() =~= rs.take(i));
}

/// Merges the readings in order: their signals one over the other, and
/// their observations one after the other.
pub fn combine(readings: Vec<Reading>) -> (r: (Signals, Vec<Observation>))
    ensures
        r.0 == merged_all(readings@),
        r.1@ == all_observations(readings@),
{
    let ghost all = readings@;
    let mut rest = readings;
    let mut signals = Signals::default();
    let mut observations: Vec<Observation> = Vec::new();
    let ghost mut done: int = 0;
    assert(all.take(0) =~= Seq::<Reading>::empty());
    while rest.len() > 0
        invariant
            0 <= done <= all.len(),
            rest@ == all.skip(done),
            signals == merged_all(all.take(done)),
            observations@ == all_observations(all.take(done)),
        decreases rest.len(),
    {
        let mut reading = rest.remove(0);
        proof {
            assert(reading == all[done]);
            lemma_fold_front(all, signals, observations@, done);
        }
        signals.merge(reading.signals);
        observations.append(&mut reading.observations);
        proof {
            done = done + 1;
            assert(rest@ =~= all.skip(done));
        }
    }
    assert(all.take(done) =~= all);
    (signals, observations)
}

// ── Ranking ─────────────────────────────────────────────────────────

/// The observations of `s` with priority `p`, in their order in `s`.
pub open spec fn with_priority(s: Seq<Observation>, p: int) -> Seq<Observation> {
    s.filter(|o: Observation| o.priority == p)
}

/// The observations of `s` with priority `p` or higher, highest priority
/// first and, within one priority, in their order in `s`.
pub open spec fn ranked_from(s: Seq<Observation>, p: int) -> Seq<Observation>
    decreases 256 - p,
{
    if p >= 256 {
        Seq::empty()
    } else {
        ranked_from(s, p + 1) + with_priority(s, p)
    }
}

/// The observations of `s`, highest priority first and, within one
/// priority, in their order in `s` (a stable sort by descending priority).
pub open spec fn ranked(s: Seq<Observation>) -> Seq<Observation> {
    ranked_from(s, 0)
}

/// The first `max` observations of `s` once ranked.
pub open spec fn top(s: Seq<Observation>, max: nat) -> Seq<Observation> {
    let r = ranked(s);
    if r.len() <= max {
        r
    } else {
        r.take(max as int)
    }
}

/// The observations of `obs`, highest priority first (the order among equal
/// priorities kept), cut to at most `max`.
pub fn rank(obs: &Vec<Observation>, max: u8) -> (r: Vec<Observation>)
    ensures
        r@ == top(obs@, max as nat),
{
    let mut out: Vec<Observation> = Vec::new();
    let mut p: u16 = 256;
    while p > 0
        invariant
            p <= 256,
            out@ == ranked_from(obs@, p as int),
        decreases p,
    {
        p = p - 1;
        let ghost base = out@;
        let mut i: usize = 0;
        while i < obs.len()
            invariant
                p < 256,
                i <= obs@.len(),
                base == ranked_from(obs@, p + 1),
                out@ == base + with_priority(obs@.take(i as int), p as int),
            decreases obs.len() - i,
        {
            proof {
                let pred = |o: Observation| o.priority == p as int;
                obs@.take(i as int).lemma_filter_push(obs@[i as int], pred);
                assert(obs@.take(i + 1) =~= obs@.take(i as int).push(obs@[i as int]));
            }
            if obs[i].priority as u16 == p {
                out.push(obs[i].clone());
            }
            i = i + 1;
        }
        assert(obs@.take(obs@.len() as int) =~= obs@);
    }
    if out.len() > max as usize {
        out.truncate(max as usize);
    }
    out
}

/// The observations shown are the first of the ranking: as many as the
/// limit allows, and all of them when they fit.
pub proof fn lemma_top_is_prefix(s: Seq<Observation>, max: nat)
    ensures
        top(s, max).len() == if ranked(s).len() <= max { ranked(s).len() } else { max },
        forall|i: int| 0 <= i < top(s, max).len() ==> top(s, max)[i] == ranked(s)[i],
{
}

proof fn lemma_ranked_from_at_least(s: Seq<Observation>, p: int)
    requires
        0 <= p <= 256,
    ensures
        forall|i: int| 0 <= i < ranked_from(s, p).len() ==> ranked_from(s, p)[i].priority >= p,
    decreases 256 - p,
{
    broadcast use vstd::seq_lib::group_filter_ensures;

    if p < 256 {
        lemma_ranked_from_at_least(s, p + 1);
        let a = ranked_from(s, p + 1);
        let b = with_priority(s, p);
        assert forall|i: int| 0 <= i < ranked_from(s, p).len() implies ranked_from(s, p)[i].priority >= p by {
            if i >= a.len() {
                assert(ranked_from(s, p)[i] == b[i - a.len()]);
            }
        }
    }
}

proof fn lemma_ranked_from_sorted(s: Seq<Observation>, p: int)
    requires
        0 <= p <= 256,
    ensures
        forall|i: int, j: int|
            0 <= i < j < ranked_from(s, p).len() ==> ranked_from(s, p)[i].priority >= ranked_from(s, p)[j].priority,
    decreases 256 - p,
{
    broadcast use vstd::seq_lib::group_filter_ensures;

    if p < 256 {
        lemma_ranked_from_sorted(s, p + 1);
        lemma_ranked_from_at_least(s, p + 1);
        let a = ranked_from(s, p + 1);
        let b = with_priority(s, p);
        let r = ranked_from(s, p);
        assert forall|i: int, j: int| 0 <= i < j < r.len() implies r[i].priority >= r[j].priority by {
            if j >= a.len() {
                assert(r[j] == b[j - a.len()]);
                if i >= a.len() {
                    assert(r[i] == b[i - a.len()]);
                } else {
                    assert(r[i] == a[i]);
                }
            } else {
                assert(r[i] == a[i]);
                assert(r[j] == a[j]);
            }
        }
    }
}

/// Ranked observations come in order of non-increasing priority.
pub proof fn lemma_ranked_sorted(s: Seq<Observation>)
    ensures
        forall|i: int, j: int| 0 <= i < j < ranked(s).len() ==> ranked(s)[i].priority >= ranked(s)[j].priority,
{
    lemma_ranked_from_sorted(s, 0);
}

/// The observations of `s` with priority in `[p, 256)`.
spec fn at_least(s: Seq<Observation>, p: int) -> Seq<Observation> {
    s.filter(|o: Observation| o.priority >= p)
}

proof fn lemma_split_at_least(s: Seq<Observation>, p: int)
    ensures
        at_least(s, p).to_multiset() == at_least(s, p + 1).to_multiset().add(with_priority(s, p).to_multiset()),
    decreases s.len(),
{
    broadcast use vstd::multiset::group_multiset_axioms;

    if s.len() == 0 {
        reveal(Seq::filter);
        assert(at_least(s, p) =~= Seq::<Observation>::empty());
        assert(at_least(s, p + 1) =~= Seq::<Observation>::empty());
        assert(with_priority(s, p) =~= Seq::<Observation>::empty());
    } else {
        let t = s.drop_last();
        let x = s.last();
        lemma_split_at_least(t, p);
        assert(t.push(x) =~= s);
        t.lemma_filter_push(x, |o: Observation| o.priority >= p);
        t.lemma_filter_push(x, |o: Observation| o.priority >= p + 1);
        t.lemma_filter_push(x, |o: Observation| o.priority == p);
    }
}

proof fn lemma_ranked_from_multiset(s: Seq<Observation>, p: int)
    requires
        0 <= p <= 256,
    ensures
        ranked_from(s, p).to_multiset() == at_least(s, p).to_multiset(),
    decreases 256 - p,
{
    broadcast use vstd::multiset::group_multiset_axioms;
    broadcast use vstd::seq_lib::lemma_multiset_commutative;

    if p < 256 {
        lemma_ranked_from_multiset(s, p + 1);
        lemma_split_at_least(s, p);
    } else {
        assert(at_least(s, 256) =~= Seq::<Observation>::empty()) by {
            broadcast use vstd::seq_lib::group_filter_ensures;
            if at_least(s, 256).len() > 0 {
                assert(at_least(s, 256)[0].priority >= 256);
            }
        }
    }
}

/// Ranking neither drops nor adds an observation: the ranked observations
/// are a permutation of the given ones.
pub proof fn lemma_ranked_permutation(s: Seq<Observation>)
    ensures
        ranked(s).to_multiset() == s.to_multiset(),
{
    lemma_ranked_from_multiset(s, 0);
    assert(at_least(s, 0) =~= s) by {
        lemma_filter_all(s, |o: Observation| o.priority >= 0);
    }
}

proof fn lemma_filter_all(s: Seq<Observation>, pred: spec_fn(Observation) -> bool)
    requires
        forall|i: int| 0 <= i < s.len() ==> pred(#[trigger] s[i]),
    ensures
        s.filter(pred) == s,
    decreases s.len(),
{
    reveal(Seq::filter);
    if s.len() > 0 {
        lemma_filter_all(s.drop_last(), pred);
        assert(s.drop_last().push(s.last()) =~= s);
    }
}

proof fn lemma_filter_none(s: Seq<Observation>, pred: spec_fn(Observation) -> bool)
    requires
        forall|i: int| 0 <= i < s.len() ==> !pred(#[trigger] s[i]),
    ensures
        s.filter(pred) == Seq::<Observation>::empty(),
    decreases s.len(),
{
    reveal(Seq::filter);
    if s.len() > 0 {
        lemma_filter_none(s.drop_last(), pred);
    }
}

proof fn lemma_ranked_from_stable(s: Seq<Observation>, p: int, q: int)
    requires
        0 <= p <= 256,
    ensures
        with_priority(ranked_from(s, p), q) == if q >= p { with_priority(s, q) } else { Seq::empty() },
    decreases 256 - p,
{
    broadcast use vstd::seq_lib::group_filter_ensures;

    let pred = |o: Observation| o.priority == q;
    if p < 256 {
        lemma_ranked_from_stable(s, p + 1, q);
        let a = ranked_from(s, p + 1);
        let b = with_priority(s, p);
        Seq::filter_distributes_over_add(a, b, pred);
        assert(ranked_from(s, p) == a + b);
        if q == p {
            assert forall|i: int| 0 <= i < b.len() implies pred(#[trigger] b[i]) by {
                assert(b[i].priority == p);
            }
            lemma_filter_all(b, pred);
            assert(a.filter(pred) + b.filter(pred) =~= with_priority(s, q));
        } else {
            lemma_filter_none(b, pred);
            assert(a.filter(pred) + b.filter(pred) =~= a.filter(pred));
        }
    } else {
        reveal(Seq::filter);
        assert(ranked_from(s, p) =~= Seq::<Observation>::empty());
        if q >= p {
            lemma_filter_none(s, pred);
        }
    }
}

/// Ranking is stable: the observations of any one priority keep their
/// order.
pub proof fn lemma_ranked_stable(s: Seq<Observation>, q: int)
    requires
        0 <= q < 256,
    ensures
        with_priority(ranked(s), q) == with_priority(s, q),
{
    lemma_ranked_from_stable(s, 0, q);
}

} // verus!
