//! The creature's line: the pose is the mood, the line says why.

use vstd::prelude::*;
use crate::config::Config;
use crate::sprite::Sprite;
use crate::state::{Context, Signals};
use crate::text::{capitalize, capitalized, decimal, push_decimal, push_signed_decimal, signed_decimal, str_eq};
use crate::pose::{disk_above, dirty_for_a_day};

verus! {

/// How the creature addresses the user: the configured name, else the
/// login name with its first letter upper-cased.
pub open spec fn addressee(ctx: Context, cfg: Config) -> Seq<char> {
    match cfg.name {
        Some(n) => n@,
        None => capitalized(ctx.user@),
    }
}

/// `"s"` unless `n` is one.
pub open spec fn plural(n: int) -> Seq<char> {
    if n == 1 { ""@ } else { "s"@ }
}

/// The battery is below 10%, on AC or not.
pub open spec fn battery_below_ten(sig: Signals) -> bool {
    match sig.battery_pct {
        Some(p) => p < 10,
        None => false,
    }
}

/// The creature's line for pose `pose`, addressing the user as `name`.
pub open spec fn voice_line(sig: Signals, pose: Seq<char>, name: Seq<char>) -> Seq<char> {
    if pose == "sick"@ {
        if battery_below_ten(sig) {
            "i'm running on fumes. plug me in?"@
        } else if disk_above(sig, 95) {
            "i can't breathe. clear some disk space."@
        } else {
            "something's off. take a look."@
        }
    } else if pose == "adorned"@ {
        "day "@ + decimal(sig.streak_days as nat) + " — look at you go, "@ + name + "."@
    } else if pose == "shivering"@ {
        match sig.temp_c {
            Some(t) => "brrr, "@ + signed_decimal(t.rounded as int) + "°. wear something warm."@,
            None => "it's cold out. bundle up."@,
        }
    } else if pose == "excited"@ {
        "something good just landed."@
    } else if pose == "concerned"@ {
        if sig.gh_review_requests >= 3 {
            decimal(sig.gh_review_requests as nat) + " review"@ + plural(sig.gh_review_requests as int)
                + " waiting on you."@
        } else if dirty_for_a_day(sig) {
            "your tree has been dirty for a while. commit or stash?"@
        } else if disk_above(sig, 85) {
            "disk is getting tight."@
        } else {
            "a few things want your attention."@
        }
    } else if pose == "sleeping"@ {
        "g'night, "@ + name + ". sleep well."@
    } else if pose == "working"@ {
        if sig.dirty_count > 0 {
            "you've got "@ + decimal(sig.dirty_count as nat) + " change"@ + plural(sig.dirty_count as int)
                + " in flight."@
        } else if sig.in_git_repo {
            "clean tree. nice place to start."@
        } else {
            "settling in."@
        }
    } else if sig.streak_days == 0 {
        "hello, "@ + name + "."@
    } else if sig.streak_days == 1 {
        "welcome back, "@ + name + "."@
    } else {
        "day "@ + decimal(sig.streak_days as nat) + ", "@ + name + ". one glance at a time."@
    }
}

/// Under the concerned pose the line names the most pressing concern: at
/// least three review requests are counted first, whatever the tree or the
/// disk; then a tree dirty for more than a day; then a disk more than 85%
/// used; else a general nudge.
pub proof fn lemma_concerned_line(sig: Signals, name: Seq<char>)
    ensures
        ({
            let line = voice_line(sig, "concerned"@, name);
            let dirty = sig.dirty_since is Some && sig.dirty_since->0 > 86400;
            let tight = sig.disk_pct_used is Some && sig.disk_pct_used->0 > 85;
            &&& sig.gh_review_requests >= 3 ==> line == decimal(sig.gh_review_requests as nat)
                + " reviews waiting on you."@
            &&& sig.gh_review_requests < 3 && dirty ==> line
                == "your tree has been dirty for a while. commit or stash?"@
            &&& sig.gh_review_requests < 3 && !dirty && tight ==> line == "disk is getting tight."@
            &&& sig.gh_review_requests < 3 && !dirty && !tight ==> line
                == "a few things want your attention."@
        }),
{
    reveal_strlit("concerned");
    reveal_strlit("sick");
    reveal_strlit("adorned");
    reveal_strlit("shivering");
    reveal_strlit("excited");
    reveal_strlit(" review");
    reveal_strlit("s");
    reveal_strlit(" waiting on you.");
    reveal_strlit(" reviews waiting on you.");
    assert("concerned"@[0] != "sick"@[0]);
    assert("concerned"@[0] != "adorned"@[0]);
    assert("concerned"@[0] != "shivering"@[0]);
    assert("concerned"@[0] != "excited"@[0]);
    assert(" review"@ + "s"@ + " waiting on you."@ =~= " reviews waiting on you."@);
    let d = decimal(sig.gh_review_requests as nat);
    assert(d + " review"@ + "s"@ + " waiting on you."@ =~= d + " reviews waiting on you."@);
}

/// Under the sick pose the line names the cause: a battery below 10%
/// first (on AC or not), then a disk more than 95% used, else a general
/// worry.
pub proof fn lemma_sick_line(sig: Signals, name: Seq<char>)
    ensures
        ({
            let line = voice_line(sig, "sick"@, name);
            let low = sig.battery_pct is Some && sig.battery_pct->0 < 10;
            let full = sig.disk_pct_used is Some && sig.disk_pct_used->0 > 95;
            &&& low ==> line == "i'm running on fumes. plug me in?"@
            &&& !low && full ==> line == "i can't breathe. clear some disk space."@
            &&& !low && !full ==> line == "something's off. take a look."@
        }),
{
}

/// Under the working pose the line counts the changes in flight (one
/// change, or so many changes); a clean tree in a repository is praised;
/// outside a repository the creature is settling in.
pub proof fn lemma_working_line(sig: Signals, name: Seq<char>)
    ensures
        ({
            let line = voice_line(sig, "working"@, name);
            &&& sig.dirty_count == 1 ==> line == "you've got 1 change in flight."@
            &&& sig.dirty_count > 1 ==> line == "you've got "@ + decimal(sig.dirty_count as nat)
                + " changes in flight."@
            &&& sig.dirty_count == 0 && sig.in_git_repo ==> line == "clean tree. nice place to start."@
            &&& sig.dirty_count == 0 && !sig.in_git_repo ==> line == "settling in."@
        }),
{
    reveal_strlit("working");
    reveal_strlit("sick");
    reveal_strlit("adorned");
    reveal_strlit("shivering");
    reveal_strlit("excited");
    reveal_strlit("concerned");
    reveal_strlit("sleeping");
    reveal_strlit("you've got ");
    reveal_strlit(" change");
    reveal_strlit("s");
    reveal_strlit("");
    reveal_strlit(" in flight.");
    reveal_strlit(" changes in flight.");
    reveal_strlit("you've got 1 change in flight.");
    assert("working"@[0] != "sick"@[0]);
    assert("working"@[0] != "adorned"@[0]);
    assert("working"@[0] != "shivering"@[0]);
    assert("working"@[0] != "excited"@[0]);
    assert("working"@[0] != "concerned"@[0]);
    assert("working"@[0] != "sleeping"@[0]);
    let d = decimal(sig.dirty_count as nat);
    if sig.dirty_count == 1 {
        assert(decimal(1) == seq!['1']);
        assert("you've got "@ + seq!['1'] + " change"@ + ""@ + " in flight."@ =~= "you've got 1 change in flight."@);
    }
    assert("you've got "@ + d + " change"@ + "s"@ + " in flight."@ =~= "you've got "@ + d + " changes in flight."@);
}

/// Under any pose without a line of its own the creature greets by the
/// streak: hello on day 0, welcome back on day 1, the day count after.
pub proof fn lemma_greeting_line(sig: Signals, pose: Seq<char>, name: Seq<char>)
    requires
        pose != "sick"@ && pose != "adorned"@ && pose != "shivering"@ && pose != "excited"@
            && pose != "concerned"@ && pose != "sleeping"@ && pose != "working"@,
    ensures
        sig.streak_days == 0 ==> voice_line(sig, pose, name) == "hello, "@ + name + "."@,
        sig.streak_days == 1 ==> voice_line(sig, pose, name) == "welcome back, "@ + name + "."@,
        sig.streak_days > 1 ==> voice_line(sig, pose, name) == "day "@ + decimal(sig.streak_days as nat) + ", "@
            + name + ". one glance at a time."@,
{
}

/// The fixed lines: sleeping wishes good night by name, adorned names the
/// streak's day, excited celebrates, shivering gives the rounded
/// temperature when there is one.
pub proof fn lemma_mood_lines(sig: Signals, name: Seq<char>)
    ensures
        voice_line(sig, "sleeping"@, name) == "g'night, "@ + name + ". sleep well."@,
        voice_line(sig, "adorned"@, name) == "day "@ + decimal(sig.streak_days as nat) + " — look at you go, "@
            + name + "."@,
        voice_line(sig, "excited"@, name) == "something good just landed."@,
        sig.temp_c is Some ==> voice_line(sig, "shivering"@, name) == "brrr, "@ + signed_decimal(
            sig.temp_c->0.rounded as int,
        ) + "°. wear something warm."@,
        sig.temp_c is None ==> voice_line(sig, "shivering"@, name) == "it's cold out. bundle up."@,
{
    reveal_strlit("sick");
    reveal_strlit("adorned");
    reveal_strlit("shivering");
    reveal_strlit("excited");
    reveal_strlit("concerned");
    reveal_strlit("sleeping");
    assert("sleeping"@[1] != "sick"@[1]);
    assert("sleeping"@[0] != "adorned"@[0]);
    assert("sleeping"@[1] != "shivering"@[1]);
    assert("sleeping"@[0] != "excited"@[0]);
    assert("sleeping"@[0] != "concerned"@[0]);
    assert("adorned"@[0] != "sick"@[0]);
    assert("excited"@[0] != "sick"@[0]);
    assert("excited"@[0] != "adorned"@[0]);
    assert("excited"@[0] != "shivering"@[0]);
    assert("shivering"@[1] != "sick"@[1]);
    assert("shivering"@[0] != "adorned"@[0]);
}

/// The line the creature says under pose `pose`.
pub fn synthesize(ctx: &Context, sig: &Signals, pose: &str, cfg: &Config, _sprite: &Sprite) -> (r: String)
    ensures
        r@ == voice_line(*sig, pose@, addressee(*ctx, *cfg)),
{
    let name: String = match &cfg.name {
        Some(n) => n.clone(),
        None => capitalize(ctx.user.as_str()),
    };
    let name = name.as_str();
    if str_eq(pose, "sick") {
        let battery_low = match sig.battery_pct {
            Some(p) => p < 10,
            None => false,
        };
        let disk_full = match sig.disk_pct_used {
            Some(d) => d > 95,
            None => false,
        };
        if battery_low {
            String::from_str("i'm running on fumes. plug me in?")
        } else if disk_full {
            String::from_str("i can't breathe. clear some disk space.")
        } else {
            String::from_str("something's off. take a look.")
        }
    } else if str_eq(pose, "adorned") {
        let mut out = String::from_str("day ");
        push_decimal(&mut out, sig.streak_days as u64);
        out.append(" — look at you go, ");
        out.append(name);
        out.append(".");
        out
    } else if str_eq(pose, "shivering") {
        match sig.temp_c {
            Some(t) => {
                let mut out = String::from_str("brrr, ");
                push_signed_decimal(&mut out, t.rounded as i64);
                out.append("°. wear something warm.");
                out
            },
            None => String::from_str("it's cold out. bundle up."),
        }
    } else if str_eq(pose, "excited") {
        String::from_str("something good just landed.")
    } else if str_eq(pose, "concerned") {
        let dirty_long = match sig.dirty_since {
            Some(d) => d > 24 * 3600,
            None => false,
        };
        let low_disk = match sig.disk_pct_used {
            Some(d) => d > 85,
            None => false,
        };
        if sig.gh_review_requests >= 3 {
            let mut out = String::new();
            push_decimal(&mut out, sig.gh_review_requests as u64);
            out.append(" review");
            out.append(if sig.gh_review_requests == 1 { "" } else { "s" });
            out.append(" waiting on you.");
            out
        } else if dirty_long {
            String::from_str("your tree has been dirty for a while. commit or stash?")
        } else if low_disk {
            String::from_str("disk is getting tight.")
        } else {
            String::from_str("a few things want your attention.")
        }
    } else if str_eq(pose, "sleeping") {
        let mut out = String::from_str("g'night, ");
        out.append(name);
        out.append(". sleep well.");
        out
    } else if str_eq(pose, "working") {
        if sig.dirty_count > 0 {
            let mut out = String::from_str("you've got ");
            push_decimal(&mut out, sig.dirty_count as u64);
            out.append(" change");
            out.append(if sig.dirty_count == 1 { "" } else { "s" });
            out.append(" in flight.");
            out
        } else if sig.in_git_repo {
            String::from_str("clean tree. nice place to start.")
        } else {
            String::from_str("settling in.")
        }
    } else if sig.streak_days == 0 {
        let mut out = String::from_str("hello, ");
        out.append(name);
        out.append(".");
        out
    } else if sig.streak_days == 1 {
        let mut out = String::from_str("welcome back, ");
        out.append(name);
        out.append(".");
        out
    } else {
        let mut out = String::from_str("day ");
        push_decimal(&mut out, sig.streak_days as u64);
        out.append(", ");
        out.append(name);
        out.append(". one glance at a time.");
        out
    }
}

} // verus!
