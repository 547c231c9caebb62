//! The observers: each turns what it read of the machine into a reading.

use vstd::prelude::*;
use crate::config::Config;
use crate::text::str_eq;

pub mod git;
pub mod github;
pub mod streak;
pub mod system;
pub mod weather;

verus! {

/// Whether a cached reading `age_secs` old is still fresh under a time to
/// live of `ttl_secs`: it is, up to and including the time to live.
pub fn is_fresh(age_secs: u64, ttl_secs: u64) -> (r: bool)
    ensures
        r == (age_secs <= ttl_secs),
{
    age_secs <= ttl_secs
}

/// The built-in observers.
#[derive(Debug, Clone, Copy, PartialEq, Eq, Structural)]
pub enum ObserverKind {
    Git,
    Github,
    Weather,
    System,
    Streak,
}

/// The observer a configured name stands for, if any.
pub open spec fn kind_named(name: Seq<char>) -> Option<ObserverKind> {
    if name == "git"@ {
        Some(ObserverKind::Git)
    } else if name == "github"@ {
        Some(ObserverKind::Github)
    } else if name == "weather"@ {
        Some(ObserverKind::Weather)
    } else if name == "system"@ {
        Some(ObserverKind::System)
    } else if name == "streak"@ {
        Some(ObserverKind::Streak)
    } else {
        None
    }
}

/// The observers that the configured names stand for, in order, unknown
/// names skipped.
pub open spec fn kinds_named(names: Seq<Seq<char>>) -> Seq<ObserverKind>
    decreases names.len(),
{
    if names.len() == 0 {
        Seq::empty()
    } else {
        kinds_named(names.drop_last()) + match kind_named(names.last()) {
            Some(k) => seq![k],
            None => Seq::empty(),
        }
    }
}

/// The observers to run, as configured.
pub fn active(cfg: &Config) -> (r: Vec<ObserverKind>)
    ensures
        r@ == kinds_named(crate::text::views(cfg.observers@)),
{
    let ghost names = crate::text::views(cfg.observers@);
    let mut out: Vec<ObserverKind> = Vec::new();
    let mut i: usize = 0;
    while i < cfg.observers.len()
        invariant
            names == crate::text::views(cfg.observers@),
            i <= names.len(),
            out@ == kinds_named(names.take(i as int)),
        decreases cfg.observers.len() - i,
    {
        assert(names.take(i + 1).drop_last() =~= names.take(i as int));
        assert(names[i as int] == cfg.observers@[i as int]@);
        let n = cfg.observers[i].as_str();
        let ghost before = out@;
        if str_eq(n, "git") {
            out.push(ObserverKind::Git);
        } else if str_eq(n, "github") {
            out.push(ObserverKind::Github);
        } else if str_eq(n, "weather") {
            out.push(ObserverKind::Weather);
        } else if str_eq(n, "system") {
            out.push(ObserverKind::System);
        } else if str_eq(n, "streak") {
            out.push(ObserverKind::Streak);
        }
        assert(out@ =~= kinds_named(names.take(i + 1)));
        i = i + 1;
    }
    assert(names.take(names.len() as int) =~= names);
    out
}

} // verus!
