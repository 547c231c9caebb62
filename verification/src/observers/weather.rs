//! The weather observer: the current temperature and conditions.

use vstd::prelude::*;
use crate::state::{observation, obs_views, quiet, ObservationView, Observation, Reading, Signals, SignalsView, Temperature};
use crate::text::{push_signed_decimal, signed_decimal};

verus! {

/// The weather observer.
pub struct Weather;

/// How long, in seconds, a cached reading stays fresh.
pub const CACHE_TTL_SECS: u64 = 30 * 60;

/// The priority of the weather line: higher the colder it is.
pub open spec fn temp_priority(t: Temperature) -> u8 {
    if t.below_zero {
        65
    } else if t.below_five {
        55
    } else {
        30
    }
}

/// The colder it is, the higher the weather line ranks: frost at 65, below
/// 5 °C at 55, anything milder at 30.
pub proof fn lemma_colder_ranks_higher(t: Temperature, u: Temperature)
    ensures
        t.below_zero ==> temp_priority(t) == 65,
        !t.below_zero && t.below_five ==> temp_priority(t) == 55,
        !t.below_zero && !t.below_five ==> temp_priority(t) == 30,
        t.below_zero && !u.below_zero ==> temp_priority(t) > temp_priority(u),
        t.below_five && !u.below_zero && !u.below_five ==> temp_priority(t) > temp_priority(u),
{
}

/// The priority of the weather line for temperature `t`.
pub fn priority_for_temp(t: Temperature) -> (p: u8)
    ensures
        p == temp_priority(t),
{
    if t.below_zero {
        65
    } else if t.below_five {
        55
    } else {
        30
    }
}

/// The words for a WMO weather code (empty for an unknown code).
pub open spec fn described(code: u32) -> Seq<char> {
    if code == 0 {
        "clear"@
    } else if code == 1 || code == 2 {
        "partly cloudy"@
    } else if code == 3 {
        "overcast"@
    } else if code == 45 || code == 48 {
        "fog"@
    } else if 51 <= code <= 57 {
        "drizzle"@
    } else if 61 <= code <= 67 {
        "rain"@
    } else if 71 <= code <= 77 {
        "snow"@
    } else if 80 <= code <= 82 {
        "showers"@
    } else if code == 85 || code == 86 {
        "snow showers"@
    } else if 95 <= code <= 99 {
        "storm"@
    } else {
        ""@
    }
}

/// Every WMO code the observer knows (0-3, 45, 48, 51-57, 61-67, 71-77,
/// 80-82, 85, 86, 95-99) gets a description, and no other code does; codes
/// of one group share their words: 1 and 2 are both partly cloudy, 45 and 48
/// fog, 51 to 57 drizzle, 61 to 67 rain, 71 to 77 snow, 80 to 82 showers,
/// 85 and 86 snow showers, 95 to 99 a storm.
pub proof fn lemma_weather_words(code: u32)
    ensures
        ({
            let known = code <= 3 || code == 45 || code == 48 || (51 <= code <= 57) || (61 <= code <= 67)
                || (71 <= code <= 77) || (80 <= code <= 82) || code == 85 || code == 86 || (95 <= code <= 99);
            known <==> described(code).len() > 0
        }),
        described(0) == "clear"@,
        described(1) == "partly cloudy"@,
        described(2) == "partly cloudy"@,
        described(3) == "overcast"@,
        described(45) == "fog"@,
        described(48) == "fog"@,
        51 <= code <= 57 ==> described(code) == "drizzle"@,
        61 <= code <= 67 ==> described(code) == "rain"@,
        71 <= code <= 77 ==> described(code) == "snow"@,
        80 <= code <= 82 ==> described(code) == "showers"@,
        described(85) == "snow showers"@,
        described(86) == "snow showers"@,
        95 <= code <= 99 ==> described(code) == "storm"@,
{
    reveal_strlit("clear");
    reveal_strlit("partly cloudy");
    reveal_strlit("overcast");
    reveal_strlit("fog");
    reveal_strlit("drizzle");
    reveal_strlit("rain");
    reveal_strlit("snow");
    reveal_strlit("showers");
    reveal_strlit("snow showers");
    reveal_strlit("storm");
    reveal_strlit("");
}

/// Describes a WMO weather code in a few words.
pub fn describe(code: u32) -> (r: &'static str)
    ensures
        r@ == described(code),
{
    if code == 0 {
        "clear"
    } else if code == 1 || code == 2 {
        "partly cloudy"
    } else if code == 3 {
        "overcast"
    } else if code == 45 || code == 48 {
        "fog"
    } else if 51 <= code && code <= 57 {
        "drizzle"
    } else if 61 <= code && code <= 67 {
        "rain"
    } else if 71 <= code && code <= 77 {
        "snow"
    } else if 80 <= code && code <= 82 {
        "showers"
    } else if code == 85 || code == 86 {
        "snow showers"
    } else if 95 <= code && code <= 99 {
        "storm"
    } else {
        ""
    }
}

/// The weather line for temperature `t` and weather code `code`.
pub open spec fn weather_observation(t: Temperature, code: u32) -> ObservationView {
    ObservationView {
        priority: temp_priority(t),
        tag: "wx"@,
        line: signed_decimal(t.rounded as int) + "° "@ + described(code),
    }
}

impl Weather {
    /// The reading of the weather observer, from the current temperature
    /// and weather code (fetched or cached), or `None` where neither could
    /// be had or no location is configured.
    pub fn reading(&self, current: Option<(Temperature, u32)>) -> (r: Reading)
        ensures
            obs_views(r.observations@) == match current {
                Some((t, code)) => seq![weather_observation(t, code)],
                None => Seq::<ObservationView>::empty(),
            },
            r.signals@ == match current {
                Some((t, _)) => SignalsView { temp_c: Some(t), ..quiet() },
                None => quiet(),
            },
    {
        match current {
            Some((t, code)) => {
                let mut sig = Signals::default();
                sig.temp_c = Some(t);
                let mut line = String::new();
                push_signed_decimal(&mut line, t.rounded as i64);
                line.append("° ");
                line.append(describe(code));
                let mut obs: Vec<Observation> = Vec::new();
                obs.push(observation(priority_for_temp(t), "wx", line));
                assert(obs_views(obs@) =~= seq![weather_observation(t, code)]);
                Reading { observations: obs, signals: sig }
            },
            None => {
                let r = Reading::default();
                assert(obs_views(r.observations@) =~= Seq::<ObservationView>::empty());
                r
            },
        }
    }
}

} // verus!
