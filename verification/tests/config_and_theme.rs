use leapoh::config::{default_creature, default_max_obs, default_observers, Args, Config};
use leapoh::theme::{color_mode_for, tag_color, tag_default_color, tag_git_color, tag_streak_color, Color, ColorMode, Theme};
use leapoh::text::{capitalize, lines, parse_uint, trim, words};

fn strings(v: &[&str]) -> Vec<String> {
    v.iter().map(|s| s.to_string()).collect()
}

#[test]
fn parse_no_arguments_gives_defaults() {
    let a = Args::parse(Vec::new()).unwrap();
    assert!(a.creature.is_none() && a.force_pose.is_none() && a.config.is_none());
    assert!(!a.no_color && !a.help);
}

#[test]
fn parse_flags_and_values() {
    let a = Args::parse(strings(&["--pose", "sick", "-h", "--creature", "fox", "--no-color", "--config", "c.toml"])).unwrap();
    assert_eq!(a.force_pose.as_deref(), Some("sick"));
    assert_eq!(a.creature.as_deref(), Some("fox"));
    assert_eq!(a.config.as_deref(), Some("c.toml"));
    assert!(a.help && a.no_color);
    let b = Args::parse(strings(&["--help"])).unwrap();
    assert!(b.help);
}

#[test]
fn parse_later_value_wins() {
    let a = Args::parse(strings(&["--pose", "idle", "--pose", "excited"])).unwrap();
    assert_eq!(a.force_pose.as_deref(), Some("excited"));
}

#[test]
fn parse_missing_values_are_refused() {
    assert_eq!(Args::parse(strings(&["--creature"])).unwrap_err(), "--creature needs a value");
    assert_eq!(Args::parse(strings(&["--pose"])).unwrap_err(), "--pose needs a value");
    assert_eq!(Args::parse(strings(&["-h", "--config"])).unwrap_err(), "--config needs a value");
}

#[test]
fn parse_unknown_argument_is_refused() {
    assert_eq!(Args::parse(strings(&["--no-color", "--loud"])).unwrap_err(), "unknown argument: --loud");
    assert_eq!(Args::parse(strings(&["-x", "--help"])).unwrap_err(), "unknown argument: -x");
}

#[test]
fn config_defaults() {
    assert_eq!(default_creature(), "axolotl");
    assert_eq!(default_max_obs(), 5);
    assert_eq!(default_observers(), strings(&["git", "github", "weather", "system", "streak"]));
    let c = Config::default();
    assert_eq!(c.creature, "axolotl");
    assert_eq!(c.max_observations, 5);
    assert!(c.name.is_none() && c.location.is_none() && c.workday_start.is_none() && c.workday_end.is_none());
    assert!(!c.no_color);
    assert_eq!(c.observers.len(), 5);
}

#[test]
fn styling_off_is_identity() {
    let t = Theme::new(false);
    let c = Color::rgb(1, 2, 3);
    assert_eq!(t.fg(c, "hi"), "hi");
    assert_eq!(t.bold_fg(c, "hi"), "hi");
    assert_eq!(t.italic_fg(c, "hi"), "hi");
    assert_eq!(t.dim("hi"), "hi");
}

#[test]
fn styling_on_writes_escapes() {
    let t = Theme::new(true);
    let c = Color::rgb(245, 0, 90);
    assert_eq!(t.fg(c, "hi"), "\x1b[38;2;245;0;90mhi\x1b[0m");
    assert_eq!(t.bold_fg(c, "hi"), "\x1b[1;38;2;245;0;90mhi\x1b[0m");
    assert_eq!(t.italic_fg(c, "hi"), "\x1b[3;38;2;245;0;90mhi\x1b[0m");
    assert_eq!(t.dim("·"), "\x1b[2m·\x1b[0m");
}

#[test]
fn tag_colors() {
    assert_eq!(tag_color("git"), tag_git_color());
    assert_eq!(tag_color("git"), Color::rgb(120, 200, 130));
    assert_eq!(tag_color("◐"), tag_streak_color());
    assert_eq!(tag_color("gh"), Color::rgb(190, 140, 240));
    assert_eq!(tag_color("wx"), Color::rgb(120, 200, 230));
    assert_eq!(tag_color("bat"), Color::rgb(240, 130, 130));
    assert_eq!(tag_color("dsk"), Color::rgb(230, 200, 110));
    assert_eq!(tag_color("cal"), Color::rgb(200, 170, 240));
    assert_eq!(tag_color("nope"), tag_default_color());
}

#[test]
fn color_from_components() {
    assert_eq!(Color::from(vec![10u8, 20, 30, 40]), Color::rgb(10, 20, 30));
    assert_eq!(Color::from(vec![10u8]), Color::rgb(10, 255, 255));
    assert_eq!(Color::from(Vec::<u8>::new()), Color::rgb(255, 255, 255));
}

#[test]
fn color_modes() {
    assert_eq!(color_mode_for(Some("always"), true), ColorMode::Always);
    assert_eq!(color_mode_for(Some("never"), false), ColorMode::Never);
    assert_eq!(color_mode_for(Some("auto"), true), ColorMode::Never);
    assert_eq!(color_mode_for(None, false), ColorMode::Auto);
    assert!(ColorMode::Always.resolve(true, false));
    assert!(!ColorMode::Never.resolve(false, true));
    assert!(ColorMode::Auto.resolve(false, true));
    assert!(!ColorMode::Auto.resolve(true, true));
    assert!(!ColorMode::Auto.resolve(false, false));
}

#[test]
fn capitalize_uses_unicode_upper_case() {
    assert_eq!(capitalize("cam"), "Cam");
    assert_eq!(capitalize("ßa"), "SSa");
    assert_eq!(capitalize(""), "");
    assert_eq!(capitalize("zed"), "Zed");
    assert_eq!(capitalize("Already"), "Already");
    assert_eq!(capitalize("7up"), "7up");
    assert_eq!(capitalize("éclair"), "Éclair");
}

#[test]
fn text_lines_words_trim() {
    assert_eq!(lines("a\r\nb\n\nc\r"), strings(&["a", "b", "", "c\r"]));
    assert_eq!(lines("x\n"), strings(&["x"]));
    assert!(lines("").is_empty());
    assert_eq!(words("  3\t 2 \n"), strings(&["3", "2"]));
    assert_eq!(trim("\u{3000} hi \n"), "hi");
}

#[test]
fn parse_unsigned_like_std() {
    assert_eq!(parse_uint("255", 255), Some(255));
    assert_eq!(parse_uint("256", 255), None);
    assert_eq!(parse_uint("+7", 255), Some(7));
    assert_eq!(parse_uint("+", 255), None);
    assert_eq!(parse_uint("", 255), None);
    assert_eq!(parse_uint("-1", 255), None);
    assert_eq!(parse_uint("007", 255), Some(7));
    assert_eq!(parse_uint("4294967295", u32::MAX as u64), Some(4294967295));
    assert_eq!(parse_uint("4294967296", u32::MAX as u64), None);
}
