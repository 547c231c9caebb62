//! Command-line arguments and the user's configuration.

use vstd::prelude::*;
use crate::text::{str_eq, views};

verus! {

/// The command-line options.
#[derive(Debug)]
pub struct Args {
    pub creature: Option<String>,
    pub force_pose: Option<String>,
    pub config: Option<String>,
    pub no_color: bool,
    pub help: bool,
}

/// The command-line options as values.
pub struct ArgsView {
    pub creature: Option<Seq<char>>,
    pub force_pose: Option<Seq<char>>,
    pub config: Option<Seq<char>>,
    pub no_color: bool,
    pub help: bool,
}

/// The view of an optional string.
pub open spec fn opt_view(o: Option<String>) -> Option<Seq<char>> {
    match o {
        Some(s) => Some(s@),
        None => None,
    }
}

impl View for Args {
    type V = ArgsView;

    open spec fn view(&self) -> ArgsView {
        ArgsView {
            creature: opt_view(self.creature),
            force_pose: opt_view(self.force_pose),
            config: opt_view(self.config),
            no_color: self.no_color,
            help: self.help,
        }
    }
}

/// No option given.
pub open spec fn no_args() -> ArgsView {
    ArgsView { creature: None, force_pose: None, config: None, no_color: false, help: false }
}

impl Default for Args {
    fn default() -> (a: Self)
        ensures
            a@ == no_args(),
    {
        Args { creature: None, force_pose: None, config: None, no_color: false, help: false }
    }
}

/// What the options `rest` make of the options `a` read so far: flags set
/// their field, `--creature`, `--pose` and `--config` take the next
/// argument as their value (a later one wins), and anything else is
/// refused.
pub open spec fn parse_from(a: ArgsView, rest: Seq<Seq<char>>) -> Result<ArgsView, Seq<char>>
    decreases rest.len(),
{
    if rest.len() == 0 {
        Ok(a)
    } else {
        let arg = rest[0];
        let tail = rest.drop_first();
        if arg == "-h"@ || arg == "--help"@ {
            parse_from(
                ArgsView { creature: a.creature, force_pose: a.force_pose, config: a.config, no_color: a.no_color, help: true },
                tail,
            )
        } else if arg == "--no-color"@ {
            parse_from(
                ArgsView { creature: a.creature, force_pose: a.force_pose, config: a.config, no_color: true, help: a.help },
                tail,
            )
        } else if arg == "--creature"@ {
            if tail.len() == 0 {
                Err("--creature needs a value"@)
            } else {
                parse_from(
                    ArgsView { creature: Some(tail[0]), force_pose: a.force_pose, config: a.config, no_color: a.no_color, help: a.help },
                    tail.drop_first(),
                )
            }
        } else if arg == "--pose"@ {
            if tail.len() == 0 {
                Err("--pose needs a value"@)
            } else {
                parse_from(
                    ArgsView { creature: a.creature, force_pose: Some(tail[0]), config: a.config, no_color: a.no_color, help: a.help },
                    tail.drop_first(),
                )
            }
        } else if arg == "--config"@ {
            if tail.len() == 0 {
                Err("--config needs a value"@)
            } else {
                parse_from(
                    ArgsView { creature: a.creature, force_pose: a.force_pose, config: Some(tail[0]), no_color: a.no_color, help: a.help },
                    tail.drop_first(),
                )
            }
        } else {
            Err("unknown argument: "@ + arg)
        }
    }
}

/// What the arguments (the program's name excluded) parse to.
pub open spec fn parsed_args(args: Seq<Seq<char>>) -> Result<ArgsView, Seq<char>> {
    parse_from(no_args(), args)
}

impl Args {
    /// Parses the arguments that follow the program's name.
    pub fn parse(args: Vec<String>) -> (r: Result<Self, String>)
        ensures
            match r {
                Ok(a) => parsed_args(views(args@)) == Ok::<ArgsView, Seq<char>>(a@),
                Err(e) => parsed_args(views(args@)) == Err::<ArgsView, Seq<char>>(e@),
            },
    {
        let ghost all = views(args@);
        let mut a = Args::default();
        let mut i: usize = 0;
        assert(all.skip(0) =~= all);
        while i < args.len()
            invariant
                all == views(args@),
                i <= args@.len(),
                parse_from(a@, all.skip(i as int)) == parsed_args(all),
            decreases args.len() - i,
        {
            let ghost rest = all.skip(i as int);
            assert(rest[0] == args@[i as int]@);
            assert(rest.drop_first() =~= all.skip(i + 1));
            let arg = args[i].as_str();
            if str_eq(arg, "-h") || str_eq(arg, "--help") {
                a.help = true;
                i = i + 1;
            } else if str_eq(arg, "--no-color") {
                a.no_color = true;
                i = i + 1;
            } else if str_eq(arg, "--creature") || str_eq(arg, "--pose") || str_eq(arg, "--config") {
                if i + 1 >= args.len() {
                    proof {
                        assert(rest.drop_first().len() == 0);
                    }
                    if str_eq(arg, "--creature") {
                        return Err(String::from_str("--creature needs a value"));
                    } else if str_eq(arg, "--pose") {
                        return Err(String::from_str("--pose needs a value"));
                    } else {
                        return Err(String::from_str("--config needs a value"));
                    }
                }
                let value = args[i + 1].clone();
                proof {
                    assert(rest.drop_first()[0] == args@[i + 1]@);
                    assert(rest.drop_first().drop_first() =~= all.skip(i + 2));
                }
                if str_eq(arg, "--creature") {
                    a.creature = Some(value);
                } else if str_eq(arg, "--pose") {
                    a.force_pose = Some(value);
                } else {
                    a.config = Some(value);
                }
                i = i + 2;
            } else {
                let mut msg = String::from_str("unknown argument: ");
                msg.append(arg);
                return Err(msg);
            }
        }
        assert(all.skip(i as int).len() == 0);
        Ok(a)
    }
}

/// Where the weather is read: latitude and longitude in degrees, each held
/// by the bits of its `f64`, and an optional label.
#[derive(Debug)]
pub struct Location {
    pub lat_bits: u64,
    pub lon_bits: u64,
    pub label: Option<String>,
}

/// The user's configuration.
#[derive(Debug, Clone)]
pub struct Config {
    pub creature: String,
    pub name: Option<String>,
    pub location: Option<Location>,
    pub max_observations: u8,
    pub observers: Vec<String>,
    pub workday_start: Option<u32>,
    pub workday_end: Option<u32>,
    pub no_color: bool,
}

/// The creature shown when the configuration names none.
pub fn default_creature() -> (r: String)
    ensures
        r@ == "axolotl"@,
{
    String::from_str("axolotl")
}

/// How many observations are shown when the configuration does not say.
pub fn default_max_obs() -> (r: u8)
    ensures
        r == 5,
{
    5
}

/// The observers that run when the configuration names none, in order.
pub open spec fn default_observer_names() -> Seq<Seq<char>> {
    seq!["git"@, "github"@, "weather"@, "system"@, "streak"@]
}

/// The observers that run when the configuration names none.
pub fn default_observers() -> (r: Vec<String>)
    ensures
        views(r@) == default_observer_names(),
{
    let mut v: Vec<String> = Vec::new();
    v.push(String::from_str("git"));
    v.push(String::from_str("github"));
    v.push(String::from_str("weather"));
    v.push(String::from_str("system"));
    v.push(String::from_str("streak"));
    assert(views(v@) =~= default_observer_names());
    v
}

/// Whether `c` is the configuration used when none is given.
pub open spec fn is_default_config(c: Config) -> bool {
    &&& c.creature@ == "axolotl"@
    &&& c.name is None
    &&& c.location is None
    &&& c.max_observations == 5
    &&& views(c.observers@) == default_observer_names()
    &&& c.workday_start is None
    &&& c.workday_end is None
    &&& !c.no_color
}

impl Default for Config {
    fn default() -> (c: Self)
        ensures
            is_default_config(c),
    {
        Config {
            creature: default_creature(),
            name: None,
            location: None,
            max_observations: default_max_obs(),
            observers: default_observers(),
            workday_start: None,
            workday_end: None,
            no_color: false,
        }
    }
}

impl Clone for Location {
    fn clone(&self) -> (r: Self)
        ensures
            r == *self,
    {
        Location { lat_bits: self.lat_bits, lon_bits: self.lon_bits, label: self.label.clone() }
    }
}

} // verus!
