//! The system observer: battery and disk.

use vstd::prelude::*;
use crate::state::{observation, obs_views, quiet, ObservationView, Observation, Reading, Signals, SignalsView};
use crate::text::{
    chars_of, decimal, lines, lines_of, parse_uint, parsed_uint, push_decimal, str_eq, string_of, trim,
    trimmed, views, words, words_of,
};

verus! {

broadcast use vstd::seq_lib::group_seq_properties;

/// The system observer.
pub struct System;

/// The observations for the battery and the disk.
pub open spec fn system_observations(battery: Option<(u8, bool)>, disk: Option<u8>) -> Seq<ObservationView> {
    (match battery {
        Some((pct, on_ac)) => if pct < 20 && !on_ac {
            seq![ObservationView { priority: 80, tag: "bat"@, line: "battery "@ + decimal(pct as nat) + "%"@ }]
        } else if pct < 10 {
            seq![ObservationView { priority: 90, tag: "bat"@, line: "battery "@ + decimal(pct as nat) + "% — plug in"@ }]
        } else {
            Seq::empty()
        },
        None => Seq::empty(),
    }) + (match disk {
        Some(used) => if used >= 85 {
            seq![ObservationView { priority: 75, tag: "dsk"@, line: "disk "@ + decimal(used as nat) + "% used"@ }]
        } else {
            Seq::empty()
        },
        None => Seq::empty(),
    })
}

/// The signals for the battery and the disk.
pub open spec fn system_signals(battery: Option<(u8, bool)>, disk: Option<u8>) -> SignalsView {
    SignalsView {
        battery_pct: match battery {
            Some((pct, _)) => Some(pct),
            None => None,
        },
        on_ac: match battery {
            Some((_, on_ac)) => Some(on_ac),
            None => None,
        },
        disk_pct_used: disk,
        ..quiet()
    }
}

fn percent_line(prefix: &str, pct: u8, suffix: &str) -> (r: String)
    ensures
        r@ == prefix@ + decimal(pct as nat) + suffix@,
{
    let mut out = String::from_str(prefix);
    push_decimal(&mut out, pct as u64);
    out.append(suffix);
    out
}

impl System {
    /// The reading of the system observer, from the battery's charge and
    /// whether it is on AC (if a battery was found), and the percentage of
    /// the root disk in use (if `df` told).
    pub fn reading(&self, battery: Option<(u8, bool)>, disk: Option<u8>) -> (r: Reading)
        ensures
            obs_views(r.observations@) == system_observations(battery, disk),
            r.signals@ == system_signals(battery, disk),
    {
        let mut sig = Signals::default();
        let mut obs: Vec<Observation> = Vec::new();
        match battery {
            Some((pct, on_ac)) => {
                sig.battery_pct = Some(pct);
                sig.on_ac = Some(on_ac);
                if pct < 20 && !on_ac {
                    obs.push(observation(80, "bat", percent_line("battery ", pct, "%")));
                } else if pct < 10 {
                    obs.push(observation(90, "bat", percent_line("battery ", pct, "% — plug in")));
                }
            },
            None => {},
        }
        match disk {
            Some(used) => {
                sig.disk_pct_used = Some(used);
                if used >= 85 {
                    obs.push(observation(75, "dsk", percent_line("disk ", used, "% used")));
                }
            },
            None => {},
        }
        assert(obs_views(obs@) =~= system_observations(battery, disk));
        Reading { observations: obs, signals: sig }
    }
}

/// Whether a power-supply entry is a battery: its name starts with `BAT`.
pub open spec fn is_battery_name(name: Seq<char>) -> bool {
    name.len() >= 3 && name.take(3) == "BAT"@
}

/// Whether a power-supply entry is a battery.
pub fn is_battery(name: &str) -> (r: bool)
    ensures
        r == is_battery_name(name@),
{
    let v = chars_of(name);
    if v.len() < 3 {
        return false;
    }
    let head = string_of(&v, 0, 3);
    str_eq(head.as_str(), "BAT")
}

/// Whether the battery's status means it is on AC.
pub open spec fn on_ac_status(status: Seq<char>) -> bool {
    status == "Charging"@ || status == "Full"@ || status == "Not charging"@
}

/// The battery's charge and whether it is on AC, from the text of its
/// `capacity` file and that of its `status` file (if readable): the charge
/// must be a number in 0..=255 once trimmed.
pub open spec fn battery_reading(capacity: Seq<char>, status: Option<Seq<char>>) -> Option<(u8, bool)> {
    match parsed_uint(trimmed(capacity), 255) {
        Some(pct) => Some((pct as u8, match status {
            Some(s) => on_ac_status(trimmed(s)),
            None => false,
        })),
        None => None,
    }
}

/// Reads a battery's charge and AC state from its `capacity` and `status`
/// files' text.
pub fn battery_status(capacity: &str, status: Option<&str>) -> (r: Option<(u8, bool)>)
    ensures
        r == battery_reading(capacity@, match status {
            Some(s) => Some(s@),
            None => None,
        }),
{
    let c = trim(capacity);
    let pct = match parse_uint(c.as_str(), 255) {
        Some(p) => p as u8,
        None => return None,
    };
    let on_ac = match status {
        Some(s) => {
            let t = trim(s);
            str_eq(t.as_str(), "Charging") || str_eq(t.as_str(), "Full") || str_eq(t.as_str(), "Not charging")
        },
        None => false,
    };
    Some((pct, on_ac))
}

/// `s` without any trailing `'%'`.
pub open spec fn strip_percent(s: Seq<char>) -> Seq<char>
    decreases s.len(),
{
    if s.len() > 0 && s.last() == '%' {
        strip_percent(s.drop_last())
    } else {
        s
    }
}

/// The percentage of the disk in use, from the output of `df -P`: the fifth
/// column of the second line, without its `%`.
pub open spec fn df_percent(out: Seq<char>) -> Option<u8> {
    let ls = lines_of(out);
    if ls.len() < 2 {
        None
    } else {
        let cols = words_of(ls[1]);
        if cols.len() < 5 {
            None
        } else {
            match parsed_uint(strip_percent(cols[4]), 255) {
                Some(n) => Some(n as u8),
                None => None,
            }
        }
    }
}

/// Reads the percentage of the disk in use from the output of `df -P`.
pub fn df_used_pct(out: &str) -> (r: Option<u8>)
    ensures
        r == df_percent(out@),
{
    let ls = lines(out);
    if ls.len() < 2 {
        return None;
    }
    assert(views(ls@)[1] == ls@[1]@);
    let cols = words(ls[1].as_str());
    if cols.len() < 5 {
        return None;
    }
    assert(views(cols@)[4] == cols@[4]@);
    let v = chars_of(cols[4].as_str());
    let mut end = v.len();
    while end > 0 && v[end - 1] == '%'
        invariant
            end <= v@.len(),
            strip_percent(v@) == strip_percent(v@.take(end as int)),
        decreases end,
    {
        assert(v@.take(end as int).drop_last() =~= v@.take(end - 1));
        end = end - 1;
    }
    assert(v@.take(end as int) =~= v@.subrange(0, end as int));
    let digits = string_of(&v, 0, end);
    assert(strip_percent(v@) == digits@);
    match parse_uint(digits.as_str(), 255) {
        Some(n) => Some(n as u8),
        None => None,
    }
}

} // verus!
