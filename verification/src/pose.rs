//! Which pose the creature takes: the most urgent signal wins.

use vstd::prelude::*;
use crate::state::{Context, Signals};

verus! {

/// The battery is below 10% and the machine is not known to be on AC.
pub open spec fn battery_critical(sig: Signals) -> bool {
    match sig.battery_pct {
        Some(p) => p < 10 && sig.on_ac != Some(true),
        None => false,
    }
}

/// The disk is more than `limit` percent used.
pub open spec fn disk_above(sig: Signals, limit: int) -> bool {
    match sig.disk_pct_used {
        Some(d) => d > limit,
        None => false,
    }
}

/// It is below 5 °C outside.
pub open spec fn is_cold(sig: Signals) -> bool {
    match sig.temp_c {
        Some(t) => t.below_five,
        None => false,
    }
}

/// The working tree has had uncommitted changes for more than a day.
pub open spec fn dirty_for_a_day(sig: Signals) -> bool {
    match sig.dirty_since {
        Some(secs) => secs > 24 * 3600,
        None => false,
    }
}

/// The first hour of the workday (8 unless configured).
pub open spec fn workday_start(ctx: Context) -> u32 {
    match ctx.cfg.workday_start {
        Some(h) => h,
        None => 8,
    }
}

/// The hour at which the workday ends (18 unless configured).
pub open spec fn workday_end(ctx: Context) -> u32 {
    match ctx.cfg.workday_end {
        Some(h) => h,
        None => 18,
    }
}

/// The pose for the given moment and signals, by fixed priority:
/// `sick` (battery below 10% off AC, or disk more than 95% used),
/// `adorned` (a streak milestone), `shivering` (below 5 °C), `excited`
/// (a merge in the last hour), `concerned` (a tree dirty for more than a
/// day, disk more than 85% used, or three review requests or more),
/// `sleeping` (before 6 or from 23 on), `working` (within the workday and
/// in a git repository), else `idle`.
pub open spec fn chosen_pose(ctx: Context, sig: Signals) -> Seq<char> {
    let h = ctx.hour;
    if battery_critical(sig) || disk_above(sig, 95) {
        "sick"@
    } else if sig.streak_milestone {
        "adorned"@
    } else if is_cold(sig) {
        "shivering"@
    } else if sig.recent_merge {
        "excited"@
    } else if dirty_for_a_day(sig) || disk_above(sig, 85) || sig.gh_review_requests >= 3 {
        "concerned"@
    } else if h < 6 || h >= 23 {
        "sleeping"@
    } else if h >= workday_start(ctx) && h < workday_end(ctx) && sig.in_git_repo {
        "working"@
    } else {
        "idle"@
    }
}

/// The pose picked is always one of the eight built-in poses.
pub proof fn lemma_pose_is_builtin(ctx: Context, sig: Signals)
    ensures
        ({
            let p = chosen_pose(ctx, sig);
            ||| p == "sick"@
            ||| p == "adorned"@
            ||| p == "shivering"@
            ||| p == "excited"@
            ||| p == "concerned"@
            ||| p == "sleeping"@
            ||| p == "working"@
            ||| p == "idle"@
        }),
{
}

/// The priority of the poses, each condition written on the raw signals:
/// a sick machine (battery below 10% and not known to be on AC, or disk
/// above 95%) wins; then a streak milestone; then cold below 5 °C; then a
/// merge in the last hour; then a concern (tree dirty for more than a day,
/// disk above 85%, or at least three review requests), at every hour of
/// the day; only then the night hours (before 6, from 23) give sleeping;
/// then the workday (8 to 18 unless configured) in a repository gives
/// working; anything else is idle.
pub proof fn lemma_pose_priority(ctx: Context, sig: Signals)
    ensures
        ({
            let sick = (sig.battery_pct is Some && sig.battery_pct->0 < 10 && sig.on_ac != Some(true))
                || (sig.disk_pct_used is Some && sig.disk_pct_used->0 > 95);
            let cold = sig.temp_c is Some && sig.temp_c->0.below_five;
            let concern = (sig.dirty_since is Some && sig.dirty_since->0 > 86400)
                || (sig.disk_pct_used is Some && sig.disk_pct_used->0 > 85)
                || sig.gh_review_requests >= 3;
            let night = ctx.hour < 6 || ctx.hour >= 23;
            let start: u32 = match ctx.cfg.workday_start { Some(h) => h, None => 8 };
            let end: u32 = match ctx.cfg.workday_end { Some(h) => h, None => 18 };
            let at_work = start <= ctx.hour && ctx.hour < end && sig.in_git_repo;
            let p = chosen_pose(ctx, sig);
            &&& sick ==> p == "sick"@
            &&& !sick && sig.streak_milestone ==> p == "adorned"@
            &&& !sick && !sig.streak_milestone && cold ==> p == "shivering"@
            &&& !sick && !sig.streak_milestone && !cold && sig.recent_merge ==> p == "excited"@
            &&& !sick && !sig.streak_milestone && !cold && !sig.recent_merge && concern ==> p == "concerned"@
            &&& !sick && !sig.streak_milestone && !cold && !sig.recent_merge && !concern && night ==> p
                == "sleeping"@
            &&& !sick && !sig.streak_milestone && !cold && !sig.recent_merge && !concern && !night && at_work
                ==> p == "working"@
            &&& !sick && !sig.streak_milestone && !cold && !sig.recent_merge && !concern && !night && !at_work
                ==> p == "idle"@
        }),
{
}

/// A concern is never slept through: whenever the tree has been dirty for
/// more than a day, the disk is more than 85% used, or three review
/// requests or more wait, and neither sick, adorned, shivering nor excited
/// applies, the pose is concerned at every hour; and the pose is sleeping
/// only at night with no concern at all.
pub proof fn lemma_concerned_outranks_sleeping(ctx: Context, sig: Signals)
    ensures
        ({
            let concern = (sig.dirty_since is Some && sig.dirty_since->0 > 86400)
                || (sig.disk_pct_used is Some && sig.disk_pct_used->0 > 85)
                || sig.gh_review_requests >= 3;
            let p = chosen_pose(ctx, sig);
            &&& p == "sleeping"@ ==> !concern && (ctx.hour < 6 || ctx.hour >= 23)
            &&& concern && p != "sick"@ && p != "adorned"@ && p != "shivering"@ && p != "excited"@ ==> p
                == "concerned"@
        }),
{
    reveal_strlit("sick");
    reveal_strlit("adorned");
    reveal_strlit("shivering");
    reveal_strlit("excited");
    reveal_strlit("concerned");
    reveal_strlit("sleeping");
    reveal_strlit("working");
    reveal_strlit("idle");
}

/// Picks the creature's pose.
pub fn select(ctx: &Context, sig: &Signals) -> (r: &'static str)
    ensures
        r@ == chosen_pose(*ctx, *sig),
{
    let h = ctx.hour;
    let battery_low = match sig.battery_pct {
        Some(p) => p < 10 && !matches!(sig.on_ac, Some(true)),
        None => false,
    };
    let disk_full = match sig.disk_pct_used {
        Some(d) => d > 95,
        None => false,
    };
    if battery_low || disk_full {
        return "sick";
    }
    if sig.streak_milestone {
        return "adorned";
    }
    let cold = match sig.temp_c {
        Some(t) => t.below_five,
        None => false,
    };
    if cold {
        return "shivering";
    }
    if sig.recent_merge {
        return "excited";
    }
    let dirty_long = match sig.dirty_since {
        Some(d) => d > 24 * 3600,
        None => false,
    };
    let low_disk = match sig.disk_pct_used {
        Some(d) => d > 85,
        None => false,
    };
    if dirty_long || low_disk || sig.gh_review_requests >= 3 {
        return "concerned";
    }
    if h < 6 || h >= 23 {
        return "sleeping";
    }
    let start = match ctx.cfg.workday_start {
        Some(s) => s,
        None => 8,
    };
    let end = match ctx.cfg.workday_end {
        Some(e) => e,
        None => 18,
    };
    if h >= start && h < end && sig.in_git_repo {
        return "working";
    }
    "idle"
}

/// The pose shown: the one forced on the command line, else the one the
/// signals pick.
pub fn pose_name(force_pose: &Option<String>, ctx: &Context, sig: &Signals) -> (r: String)
    ensures
        r@ == match force_pose {
            Some(p) => p@,
            None => chosen_pose(*ctx, *sig),
        },
{
    match force_pose {
        Some(p) => p.clone(),
        None => String::from_str(select(ctx, sig)),
    }
}

} // verus!
