//! The streak observer: the days in a row on which the glance was taken.

use vstd::prelude::*;
use crate::clock::{format_day, parse_day, spec_format_day, spec_parse_day};
use crate::config::opt_view;
use crate::state::{observation, obs_views, quiet, ObservationView, Observation, Reading, Signals, SignalsView};
use crate::text::{decimal, push_decimal};

verus! {

/// The streak observer.
pub struct Streak;

/// What the streak file holds: the day last seen (`YYYY-MM-DD`), the current
/// streak and the longest one.
#[derive(Debug)]
pub struct StreakFile {
    pub last_seen: Option<String>,
    pub count: u32,
    pub longest: u32,
}

/// The streak file as values.
pub struct StreakFileView {
    pub last_seen: Option<Seq<char>>,
    pub count: u32,
    pub longest: u32,
}

impl View for StreakFile {
    type V = StreakFileView;

    open spec fn view(&self) -> StreakFileView {
        StreakFileView { last_seen: opt_view(self.last_seen), count: self.count, longest: self.longest }
    }
}

impl Default for StreakFile {
    fn default() -> (f: Self)
        ensures
            f@ == (StreakFileView { last_seen: None, count: 0, longest: 0 }),
    {
        StreakFile { last_seen: None, count: 0, longest: 0 }
    }
}

/// The streak lengths worth celebrating.
pub open spec fn milestone(n: u32) -> bool {
    n == 7 || n == 14 || n == 30 || n == 60 || n == 100 || n == 200 || n == 365 || n == 500 || n == 1000
}

/// Whether a streak of `n` days is worth celebrating.
pub fn is_milestone(n: u32) -> (r: bool)
    ensures
        r == milestone(n),
{
    n == 7 || n == 14 || n == 30 || n == 60 || n == 100 || n == 200 || n == 365 || n == 500 || n == 1000
}

/// The day number of the day last seen, where the file has one that chrono
/// reads.
pub open spec fn last_day(f: StreakFileView) -> Option<i32> {
    match f.last_seen {
        Some(t) => spec_parse_day(t),
        None => None,
    }
}

/// Reads the day last seen.
pub fn last_seen_day(f: &StreakFile) -> (r: Option<i32>)
    ensures
        r == last_day(f@),
{
    match &f.last_seen {
        Some(t) => parse_day(t.as_str()),
        None => None,
    }
}

/// Counting today would go past `u32::MAX`: the day last seen was
/// yesterday and the streak is already that long.
pub open spec fn count_overflows(last: Option<i32>, count: u32, today: i32) -> bool {
    match last {
        Some(d) => d != today && today - d == 1 && count == u32::MAX,
        None => false,
    }
}

/// Today's streak, and whether it differs from the day last seen: the same
/// day keeps the streak (at least one), the next day extends it by one, and
/// any other day (or none) starts it again at one.
pub open spec fn count_today(last: Option<i32>, count: u32, today: i32) -> (u32, bool) {
    match last {
        Some(d) => if d == today {
            (if count >= 1 { count } else { 1 }, false)
        } else if today - d == 1 {
            ((count + 1) as u32, true)
        } else {
            (1, true)
        },
        None => (1, true),
    }
}

/// Today's streak from the day last seen and the streak then.
pub fn count_for(last: Option<i32>, count: u32, today: i32) -> (r: (u32, bool))
    requires
        !count_overflows(last, count, today),
    ensures
        r == count_today(last, count, today),
{
    match last {
        Some(d) => {
            if d == today {
                (if count >= 1 { count } else { 1 }, false)
            } else if (today as i64) - (d as i64) == 1 {
                (count + 1, true)
            } else {
                (1, true)
            }
        },
        None => (1, true),
    }
}

/// Today's streak from the streak file, or `None` where counting today
/// would go past `u32::MAX`.
pub fn compute_today_count(f: &StreakFile, today: i32) -> (r: Option<(u32, bool)>)
    ensures
        match r {
            Some(c) => !count_overflows(last_day(f@), f.count, today) && c == count_today(last_day(f@), f.count, today),
            None => count_overflows(last_day(f@), f.count, today),
        },
{
    let last = last_seen_day(f);
    let overflows = match last {
        Some(d) => d != today && (today as i64) - (d as i64) == 1 && f.count == u32::MAX,
        None => false,
    };
    if overflows {
        None
    } else {
        Some(count_for(last, f.count, today))
    }
}

/// The streak observation and signals for a streak of `count` days.
pub open spec fn streak_observations(count: u32) -> Seq<ObservationView> {
    if count > 0 {
        seq![ObservationView {
            priority: if milestone(count) { 65 } else { 25 },
            tag: "◐"@,
            line: if milestone(count) {
                "day "@ + decimal(count as nat) + " of your streak — well done"@
            } else {
                "day "@ + decimal(count as nat) + " of your streak"@
            },
        }]
    } else {
        Seq::empty()
    }
}

/// The reading for a streak of `count` days.
pub fn streak_reading(count: u32) -> (r: Reading)
    ensures
        obs_views(r.observations@) == streak_observations(count),
        r.signals@ == (SignalsView { streak_days: count, streak_milestone: milestone(count), ..quiet() }),
{
    let mut sig = Signals::default();
    sig.streak_days = count;
    let m = is_milestone(count);
    if m {
        sig.streak_milestone = true;
    }
    let mut obs: Vec<Observation> = Vec::new();
    if count > 0 {
        let priority: u8 = if m { 65 } else { 25 };
        let mut line = String::from_str("day ");
        push_decimal(&mut line, count as u64);
        line.append(if m { " of your streak — well done" } else { " of your streak" });
        obs.push(observation(priority, "◐", line));
    }
    assert(obs_views(obs@) =~= streak_observations(count));
    Reading { observations: obs, signals: sig }
}

impl Streak {
    /// The reading of the streak observer for today, from the streak file;
    /// `None` where counting today would go past `u32::MAX`.
    pub fn reading(&self, f: &StreakFile, today: i32) -> (r: Option<Reading>)
        ensures
            match r {
                Some(rd) => !count_overflows(last_day(f@), f.count, today) && {
                    let c = count_today(last_day(f@), f.count, today).0;
                    &&& obs_views(rd.observations@) == streak_observations(c)
                    &&& rd.signals@ == (SignalsView { streak_days: c, streak_milestone: milestone(c), ..quiet() })
                },
                None => count_overflows(last_day(f@), f.count, today),
            },
    {
        match compute_today_count(f, today) {
            Some((count, _)) => Some(streak_reading(count)),
            None => None,
        }
    }
}

/// What the streak file becomes once today is recorded, written as
/// `today_text`: nothing changes on a day already recorded; otherwise the
/// streak is today's, the longest streak keeps up with it, and today is
/// the day last seen.
pub open spec fn recorded(f: StreakFileView, last: Option<i32>, today: i32, today_text: Seq<char>) -> Option<StreakFileView> {
    match last {
        Some(d) => if d == today {
            None
        } else {
            let count = if today - d == 1 { (f.count + 1) as u32 } else { 1u32 };
            Some(StreakFileView {
                last_seen: Some(today_text),
                count,
                longest: if count > f.longest { count } else { f.longest },
            })
        },
        None => Some(StreakFileView {
            last_seen: Some(today_text),
            count: 1,
            longest: if f.longest >= 1 { f.longest } else { 1 },
        }),
    }
}

/// The streak file once today is recorded (written as `today_text`), or
/// `None` where today is already recorded.
pub fn record_for(f: &StreakFile, last: Option<i32>, today: i32, today_text: &str) -> (r: Option<StreakFile>)
    requires
        !count_overflows(last, f.count, today),
    ensures
        match r {
            Some(g) => recorded(f@, last, today, today_text@) == Some(g@),
            None => recorded(f@, last, today, today_text@) is None,
        },
{
    match last {
        Some(d) => {
            if d == today {
                None
            } else {
                let count = if (today as i64) - (d as i64) == 1 { f.count + 1 } else { 1 };
                let longest = if count > f.longest { count } else { f.longest };
                Some(StreakFile { last_seen: Some(String::from_str(today_text)), count, longest })
            }
        },
        None => Some(StreakFile {
            last_seen: Some(String::from_str(today_text)),
            count: 1,
            longest: if f.longest >= 1 { f.longest } else { 1 },
        }),
    }
}

/// What recording today does to the streak file.
pub enum StreakStep {
    /// Nothing to write.
    Keep,
    /// The file to write.
    Write(StreakFile),
    /// The streak cannot grow past `u32::MAX`.
    Overflow,
}

/// What recording today does to a streak file, as values.
pub enum StreakOutcome {
    Keep,
    Write(StreakFileView),
    Overflow,
}

/// What recording today does: an overflow where counting today would go
/// past `u32::MAX`; nothing on a day already recorded or where chrono
/// cannot write today's date; else the file with today recorded.
pub open spec fn record_outcome(f: StreakFileView, today: i32) -> StreakOutcome {
    if count_overflows(last_day(f), f.count, today) {
        StreakOutcome::Overflow
    } else if last_day(f) == Some(today) || spec_format_day(today) is None {
        StreakOutcome::Keep
    } else {
        match recorded(f, last_day(f), today, spec_format_day(today)->0) {
            Some(g) => StreakOutcome::Write(g),
            None => StreakOutcome::Keep,
        }
    }
}

/// The outcome that a step stands for.
pub open spec fn step_outcome(r: StreakStep) -> StreakOutcome {
    match r {
        StreakStep::Keep => StreakOutcome::Keep,
        StreakStep::Write(g) => StreakOutcome::Write(g@),
        StreakStep::Overflow => StreakOutcome::Overflow,
    }
}

/// Records today in the streak file. Nothing is written on a day already
/// recorded, nor where chrono cannot write today's date. Reading a written
/// file today shows the streak read before the write, and recording again
/// on the same day writes nothing.
pub fn next_record(f: &StreakFile, today: i32) -> (r: StreakStep)
    ensures
        step_outcome(r) == record_outcome(f@, today),
        match r {
            StreakStep::Overflow => count_overflows(last_day(f@), f.count, today),
            StreakStep::Keep => !count_overflows(last_day(f@), f.count, today) && (last_day(f@) == Some(today)
                || spec_format_day(today) is None),
            StreakStep::Write(g) => !count_overflows(last_day(f@), f.count, today) && last_day(f@) != Some(today)
                && spec_format_day(today) is Some
                && recorded(f@, last_day(f@), today, spec_format_day(today)->0) == Some(g@)
                && last_day(g@) == Some(today)
                && g.count >= 1
                && g.count == count_today(last_day(f@), f.count, today).0,
        },
        r matches StreakStep::Write(g) ==> !count_overflows(last_day(g@), g.count, today)
            && count_today(last_day(g@), g.count, today).0 == count_today(last_day(f@), f.count, today).0,
        r matches StreakStep::Write(g) ==> record_outcome(g@, today) is Keep,
{
    let last = last_seen_day(f);
    let overflows = match last {
        Some(d) => d != today && (today as i64) - (d as i64) == 1 && f.count == u32::MAX,
        None => false,
    };
    if overflows {
        return StreakStep::Overflow;
    }
    if last == Some(today) {
        return StreakStep::Keep;
    }
    match format_day(today) {
        Some(text) => match record_for(f, last, today, text.as_str()) {
            Some(g) => {
                proof {
                    lemma_recorded_day_is_kept(g@, today);
                }
                StreakStep::Write(g)
            },
            None => StreakStep::Keep,
        },
        None => StreakStep::Keep,
    }
}

/// Recording today stores today's streak, as the observer counts it, and
/// the longest streak is never shorter than the current one.
pub proof fn lemma_record_matches_count(f: StreakFileView, last: Option<i32>, today: i32, text: Seq<char>)
    requires
        !count_overflows(last, f.count, today),
        recorded(f, last, today, text) is Some,
    ensures
        recorded(f, last, today, text)->0.count == count_today(last, f.count, today).0,
        recorded(f, last, today, text)->0.longest >= recorded(f, last, today, text)->0.count,
        recorded(f, last, today, text)->0.last_seen == Some(text),
{
}

/// A file that already records today, with a streak of at least one day,
/// is kept as it is: today's streak is the recorded one, counting it cannot
/// overflow, and recording today again writes nothing. Together with what
/// `next_record` states of a file it writes, this gives the two
/// read-after-write laws: the streak shown after recording today is the one
/// recorded, and recording twice on one day is recording once.
pub proof fn lemma_recorded_day_is_kept(g: StreakFileView, today: i32)
    requires
        last_day(g) == Some(today),
        g.count >= 1,
    ensures
        !count_overflows(last_day(g), g.count, today),
        count_today(last_day(g), g.count, today) == (g.count, false),
        record_outcome(g, today) is Keep,
{
}

/// A streak grows by one day after day, and starts again at one after a
/// day missed.
pub proof fn lemma_streak_steps(count: u32, d: i32, today: i32)
    requires
        count < u32::MAX,
        d != today,
    ensures
        today - d == 1 ==> count_today(Some(d), count, today).0 == count + 1,
        today - d != 1 ==> count_today(Some(d), count, today).0 == 1,
{
}

} // verus!
