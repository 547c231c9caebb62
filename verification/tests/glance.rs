use chrono::Datelike;
use leapoh::config::Config;
use leapoh::observers::{active, ObserverKind};
use leapoh::pose::{pose_name, select};
use leapoh::render::{build_right_lines, header, header_with, render, speaker, visual_width};
use leapoh::sprite::{builtin_creature, creature_choice, BuiltinCreature, default_default_pose, fallback_art, is_builtin_creature, is_path_like, pick_art, pose_color, Pose, Sprite};
use leapoh::state::{combine, rank, Context, Observation, Reading, Signals, Temperature};
use leapoh::theme::{Color, Theme};
use leapoh::voice::synthesize;

fn day(y: i32, m: u32, d: u32) -> i32 {
    chrono::NaiveDate::from_ymd_opt(y, m, d).unwrap().num_days_from_ce()
}

fn ctx_at(hour: u32) -> Context {
    Context { today: day(2024, 3, 15), hour, minute: 14, user: "cam".to_string(), cfg: Config::default() }
}

fn obs(p: u8, tag: &str, line: &str) -> Observation {
    Observation { priority: p, tag: tag.to_string(), line: line.to_string() }
}

fn sprite() -> Sprite {
    Sprite {
        name: "axolotl".to_string(),
        default_pose: "idle".to_string(),
        poses: vec![
            ("idle".to_string(), Pose { art: "ab\n\ncd\n".to_string(), color: None }),
            ("sick".to_string(), Pose { art: "x".to_string(), color: Some(Color::rgb(1, 1, 1)) }),
        ],
        color: None,
    }
}

#[test]
fn merge_later_reading_wins_and_flags_stick() {
    let mut a = Signals::default();
    a.in_git_repo = true;
    a.dirty_count = 4;
    a.branch = Some("main".to_string());
    a.event_in_minutes = Some(10);
    a.event_title = Some("standup".to_string());
    let mut b = Signals::default();
    b.dirty_count = 2;
    b.battery_pct = Some(50);
    b.event_title = Some("ignored".to_string());
    a.merge(b);
    assert!(a.in_git_repo);
    assert_eq!(a.dirty_count, 2);
    assert_eq!(a.branch.as_deref(), Some("main"));
    assert_eq!(a.battery_pct, Some(50));
    assert_eq!(a.event_in_minutes, Some(10));
    assert_eq!(a.event_title.as_deref(), Some("standup"));
    let mut c = Signals::default();
    c.event_in_minutes = Some(3);
    a.merge(c);
    assert_eq!(a.event_in_minutes, Some(3));
    assert!(a.event_title.is_none());
}

fn sample(n: u32) -> Signals {
    let mut s = Signals::default();
    s.dirty_count = n;
    s.unpushed = n % 2;
    s.recent_merge = n == 3;
    s.disk_pct_used = if n > 1 { Some(n as u8) } else { None };
    s
}

#[test]
fn merge_is_associative_and_idempotent_on_examples() {
    let mut left = sample(1);
    left.merge(sample(2));
    left.merge(sample(3));
    let mut bc = sample(2);
    bc.merge(sample(3));
    let mut right = sample(1);
    right.merge(bc);
    assert_eq!(format!("{:?}", left), format!("{:?}", right));
    let mut same = sample(3);
    same.merge(sample(3));
    assert_eq!(format!("{:?}", same), format!("{:?}", sample(3)));
    let mut with_empty = sample(2);
    with_empty.merge(Signals::default());
    assert_eq!(format!("{:?}", with_empty), format!("{:?}", sample(2)));
}

#[test]
fn merge_into_empty_gives_the_signals() {
    let mut e = Signals::default();
    e.merge(sample(3));
    assert_eq!(format!("{:?}", e), format!("{:?}", sample(3)));
    let mut t = Signals::default();
    t.event_title = Some("lonely".to_string());
    let mut e2 = Signals::default();
    e2.merge(t);
    assert!(e2.event_title.is_none());
}

#[test]
fn combine_merges_in_order() {
    let mut r1 = Reading::default();
    r1.observations.push(obs(10, "a", "one"));
    r1.signals.dirty_count = 1;
    let mut r2 = Reading::default();
    r2.observations.push(obs(20, "b", "two"));
    r2.signals.dirty_count = 7;
    let (sig, all) = combine(vec![r1, r2]);
    assert_eq!(sig.dirty_count, 7);
    assert_eq!(all.iter().map(|o| o.line.as_str()).collect::<Vec<_>>(), vec!["one", "two"]);
}

#[test]
fn rank_is_stable_descending_and_cut() {
    let v = vec![obs(40, "a", "1"), obs(70, "b", "2"), obs(40, "c", "3"), obs(90, "d", "4"), obs(70, "e", "5")];
    let r = rank(&v, 10);
    assert_eq!(r.iter().map(|o| o.line.as_str()).collect::<Vec<_>>(), vec!["4", "2", "5", "1", "3"]);
    let cut = rank(&v, 2);
    assert_eq!(cut.iter().map(|o| o.line.as_str()).collect::<Vec<_>>(), vec!["4", "2"]);
    assert!(rank(&v, 0).is_empty());
}

#[test]
fn pose_priority() {
    let ctx = ctx_at(10);
    let mut s = Signals::default();
    assert_eq!(select(&ctx, &s), "idle");
    s.in_git_repo = true;
    assert_eq!(select(&ctx, &s), "working");
    assert_eq!(select(&ctx_at(7), &s), "idle");
    assert_eq!(select(&ctx_at(23), &s), "sleeping");
    assert_eq!(select(&ctx_at(5), &s), "sleeping");
    s.gh_review_requests = 3;
    assert_eq!(select(&ctx, &s), "concerned");
    s.recent_merge = true;
    assert_eq!(select(&ctx, &s), "excited");
    s.temp_c = Some(Temperature { rounded: 5, below_zero: false, below_five: true });
    assert_eq!(select(&ctx, &s), "shivering");
    s.streak_milestone = true;
    assert_eq!(select(&ctx, &s), "adorned");
    s.battery_pct = Some(9);
    assert_eq!(select(&ctx, &s), "sick");
    s.on_ac = Some(true);
    assert_eq!(select(&ctx, &s), "adorned");
    s.disk_pct_used = Some(96);
    assert_eq!(select(&ctx, &s), "sick");
}

#[test]
fn pose_concerned_thresholds_and_workday() {
    let ctx = ctx_at(12);
    let mut s = Signals::default();
    s.dirty_since = Some(24 * 3600);
    assert_eq!(select(&ctx, &s), "idle");
    s.dirty_since = Some(24 * 3600 + 1);
    assert_eq!(select(&ctx, &s), "concerned");
    let mut d = Signals::default();
    d.disk_pct_used = Some(86);
    assert_eq!(select(&ctx, &d), "concerned");
    let mut c = ctx_at(19);
    c.cfg.workday_end = Some(20);
    let mut g = Signals::default();
    g.in_git_repo = true;
    assert_eq!(select(&c, &g), "working");
    assert_eq!(pose_name(&Some("excited".to_string()), &c, &g), "excited");
    assert_eq!(pose_name(&None, &c, &g), "working");
}

#[test]
fn voice_lines() {
    let ctx = ctx_at(10);
    let cfg = Config::default();
    let sp = sprite();
    let mut s = Signals::default();
    assert_eq!(synthesize(&ctx, &s, "idle", &cfg, &sp), "hello, Cam.");
    s.streak_days = 1;
    assert_eq!(synthesize(&ctx, &s, "idle", &cfg, &sp), "welcome back, Cam.");
    s.streak_days = 12;
    assert_eq!(synthesize(&ctx, &s, "idle", &cfg, &sp), "day 12, Cam. one glance at a time.");
    assert_eq!(synthesize(&ctx, &s, "adorned", &cfg, &sp), "day 12 — look at you go, Cam.");
    assert_eq!(synthesize(&ctx, &s, "sleeping", &cfg, &sp), "g'night, Cam. sleep well.");
    assert_eq!(synthesize(&ctx, &s, "shivering", &cfg, &sp), "it's cold out. bundle up.");
    s.temp_c = Some(Temperature { rounded: -3, below_zero: true, below_five: true });
    assert_eq!(synthesize(&ctx, &s, "shivering", &cfg, &sp), "brrr, -3°. wear something warm.");
    assert_eq!(synthesize(&ctx, &s, "excited", &cfg, &sp), "something good just landed.");
    assert_eq!(synthesize(&ctx, &s, "sick", &cfg, &sp), "something's off. take a look.");
    s.disk_pct_used = Some(97);
    assert_eq!(synthesize(&ctx, &s, "sick", &cfg, &sp), "i can't breathe. clear some disk space.");
    assert_eq!(synthesize(&ctx, &s, "concerned", &cfg, &sp), "disk is getting tight.");
    s.battery_pct = Some(5);
    assert_eq!(synthesize(&ctx, &s, "sick", &cfg, &sp), "i'm running on fumes. plug me in?");
    s.gh_review_requests = 3;
    assert_eq!(synthesize(&ctx, &s, "concerned", &cfg, &sp), "3 reviews waiting on you.");
    assert_eq!(synthesize(&ctx, &s, "working", &cfg, &sp), "settling in.");
    s.in_git_repo = true;
    assert_eq!(synthesize(&ctx, &s, "working", &cfg, &sp), "clean tree. nice place to start.");
    s.dirty_count = 1;
    assert_eq!(synthesize(&ctx, &s, "working", &cfg, &sp), "you've got 1 change in flight.");
    s.dirty_count = 2;
    assert_eq!(synthesize(&ctx, &s, "working", &cfg, &sp), "you've got 2 changes in flight.");
    let named = Config { name: Some("Ada".to_string()), ..Config::default() };
    assert_eq!(synthesize(&ctx, &s, "sleeping", &named, &sp), "g'night, Ada. sleep well.");
}

#[test]
fn voice_concerned_fallbacks() {
    let ctx = ctx_at(10);
    let cfg = Config::default();
    let sp = sprite();
    let mut s = Signals::default();
    assert_eq!(synthesize(&ctx, &s, "concerned", &cfg, &sp), "a few things want your attention.");
    s.dirty_since = Some(100000);
    assert_eq!(synthesize(&ctx, &s, "concerned", &cfg, &sp), "your tree has been dirty for a while. commit or stash?");
}

#[test]
fn visual_width_skips_escapes() {
    assert_eq!(visual_width("abc"), 3);
    assert_eq!(visual_width("\x1b[38;2;1;2;3mabc\x1b[0m"), 3);
    assert_eq!(visual_width("°·"), 2);
    let t = Theme::new(true);
    assert_eq!(visual_width(&t.bold_fg(Color::rgb(200, 9, 0), "hello")), 5);
}

#[test]
fn speaker_tags() {
    let mut sp = sprite();
    assert_eq!(speaker(&sp), "axo");
    sp.name = "ox".to_string();
    assert_eq!(speaker(&sp), "ox");
    sp.name = String::new();
    assert_eq!(speaker(&sp), "pet");
}

#[test]
fn header_greets_by_hour_with_clock() {
    let t = Theme::new(false);
    let cfg = Config::default();
    assert_eq!(header(&ctx_at(8), &cfg, &t), "good morning, Cam · Friday · 08:14");
    assert_eq!(header(&ctx_at(13), &cfg, &t), "good afternoon, Cam · Friday · 13:14");
    assert_eq!(header(&ctx_at(21), &cfg, &t), "good evening, Cam · Friday · 21:14");
    assert_eq!(header(&ctx_at(2), &cfg, &t), "still up, Cam · Friday · 02:14");
    assert_eq!(header_with(&ctx_at(2), &cfg, &t, "now"), "still up, Cam · now");
}

#[test]
fn right_column_pads_to_seven_then_voice() {
    let t = Theme::new(false);
    let cfg = Config::default();
    let ctx = ctx_at(8);
    let lines = build_right_lines(&ctx, &sprite(), &vec![obs(1, "git", "main · clean")], "hi", &cfg, &t);
    assert_eq!(lines.len(), 8);
    assert_eq!(lines[2], "git   main · clean");
    assert_eq!(lines[3], "");
    assert_eq!(lines[7], "axo · \"hi\"");
}

#[test]
fn render_lays_out_side_by_side() {
    let t = Theme::new(false);
    let cfg = Config::default();
    let ctx = ctx_at(8);
    let sp = sprite();
    let art = pick_art(&sp, "idle");
    let out = render(&ctx, &sp, &art, &Vec::new(), "hi", &cfg, &t);
    let rows: Vec<&str> = out.split('\n').collect();
    assert_eq!(rows.len(), 9);
    assert_eq!(rows[0], "ab    good morning, Cam · Friday · 08:14");
    assert_eq!(rows[1], "cd    ");
    assert_eq!(rows[2], "      ");
    assert_eq!(rows[7], "      axo · \"hi\"");
    assert_eq!(rows[8], "");
}

#[test]
fn render_paints_the_creature() {
    let t = Theme::new(true);
    let cfg = Config::default();
    let ctx = ctx_at(8);
    let sp = sprite();
    let art = pick_art(&sp, "sick");
    let out = render(&ctx, &sp, &art, &Vec::new(), "hi", &cfg, &t);
    assert!(out.starts_with("\x1b[38;2;1;1;1mx\x1b[0m    "));
}

#[test]
fn art_choice_and_tints() {
    let sp = sprite();
    assert_eq!(pick_art(&sp, "sick").art, "x");
    assert_eq!(pick_art(&sp, "working").art, "ab\n\ncd\n");
    let mut bare = sprite();
    bare.default_pose = "none".to_string();
    assert_eq!(pick_art(&bare, "working").art, "?");
    let art = pick_art(&sp, "sick");
    assert_eq!(pose_color(&sp, &art), Some(Color::rgb(1, 1, 1)));
    let mut tinted = sprite();
    tinted.color = Some(Color::rgb(9, 9, 9));
    let idle = pick_art(&tinted, "idle");
    assert_eq!(pose_color(&tinted, &idle), Some(Color::rgb(9, 9, 9)));
    assert_eq!(default_default_pose(), "idle");
    assert!(fallback_art().art.starts_with("    .---.\n"));
}

#[test]
fn creature_names_and_paths() {
    let cfg = Config::default();
    assert_eq!(creature_choice(&cfg, None), "axolotl");
    assert_eq!(creature_choice(&cfg, Some("duck")), "duck");
    assert!(is_path_like("./duck.toml"));
    assert!(is_path_like("duck.toml"));
    assert!(is_path_like("a/b"));
    assert!(!is_path_like("duck"));
    assert!(!is_path_like("toml"));
    assert!(is_builtin_creature("axolotl"));
    assert!(is_builtin_creature("fox"));
    assert!(!is_builtin_creature("duck"));
    assert!(!is_builtin_creature("Fox"));
}

#[test]
fn builtin_creatures_by_name() {
    assert_eq!(builtin_creature("axolotl"), Some(BuiltinCreature::Axolotl));
    assert_eq!(builtin_creature("fox"), Some(BuiltinCreature::Fox));
    assert_eq!(builtin_creature("panda"), None);
    assert_eq!(builtin_creature(""), None);
}

#[test]
fn dim_keeps_visual_width() {
    let on = Theme { enabled: true };
    let off = Theme { enabled: false };
    for s in ["", "fox", "day 7 of your streak", "\u{1b}[1mbold"] {
        assert_eq!(visual_width(&on.dim(s)), visual_width(s));
        assert_eq!(visual_width(&off.dim(s)), visual_width(s));
    }
    assert_ne!(on.dim("fox"), "fox");
}

#[test]
fn active_observers_in_order() {
    let mut cfg = Config::default();
    assert_eq!(active(&cfg), vec![ObserverKind::Git, ObserverKind::Github, ObserverKind::Weather, ObserverKind::System, ObserverKind::Streak]);
    cfg.observers = vec!["streak".to_string(), "calendar".to_string(), "git".to_string()];
    assert_eq!(active(&cfg), vec![ObserverKind::Streak, ObserverKind::Git]);
}
