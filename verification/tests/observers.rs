use chrono::Datelike;
use leapoh::clock::{clock_label, format_day, parse_day};
use leapoh::observers::git::{oldest_change_age, parse_lr, porcelain_path, truncate, Git, GitProbe};
use leapoh::observers::is_fresh;
use leapoh::observers::github::{count_matches, github_next, GhAction, GhEvent, count_search_results, parse_cache, parse_notifications, Github};
use leapoh::observers::streak::{compute_today_count, is_milestone, next_record, streak_reading, Streak, StreakFile, StreakStep};
use leapoh::observers::system::{battery_status, df_used_pct, is_battery, System};
use leapoh::observers::weather::{describe, priority_for_temp, Weather};
use leapoh::state::{Observation, Temperature};

fn day(y: i32, m: u32, d: u32) -> i32 {
    chrono::NaiveDate::from_ymd_opt(y, m, d).unwrap().num_days_from_ce()
}

fn lines_of(obs: &[Observation]) -> Vec<(u8, String, String)> {
    obs.iter().map(|o| (o.priority, o.tag.clone(), o.line.clone())).collect()
}

fn probe() -> GitProbe {
    GitProbe {
        is_repo: true,
        symbolic_ref: Some("main\n".to_string()),
        abbrev_ref: None,
        status: Some(String::new()),
        upstream: Some("0\t0\n".to_string()),
        has_commits: true,
        dirty_age_secs: Some(500),
        last_merge: Some(String::new()),
    }
}

#[test]
fn git_clean_repo() {
    let r = Git.reading(&probe());
    assert!(r.signals.in_git_repo);
    assert_eq!(r.signals.branch.as_deref(), Some("main"));
    assert_eq!(r.signals.dirty_count, 0);
    assert!(r.signals.dirty_since.is_none());
    assert!(!r.signals.recent_merge);
    assert_eq!(lines_of(&r.observations), vec![(40, "git".to_string(), "main · clean".to_string())]);
}

#[test]
fn git_dirty_ahead_behind_and_merge() {
    let mut p = probe();
    p.status = Some(" M a.rs\n?? b.rs\n\n".to_string());
    p.upstream = Some("2\t3\n".to_string());
    p.last_merge = Some("Merge pull request #12 from someone/a-rather-long-branch-name\n".to_string());
    let r = Git.reading(&p);
    assert_eq!(r.signals.dirty_count, 2);
    assert_eq!(r.signals.dirty_since, Some(500));
    assert_eq!(r.signals.unpushed, 3);
    assert!(r.signals.recent_merge);
    let l = lines_of(&r.observations);
    assert_eq!(l[0], (70, "git".to_string(), "main · 2 changed · 3 ahead · 2 behind".to_string()));
    assert_eq!(l[1], (60, "git".to_string(), "merged: Merge pull request #12 from someone/a-r…".to_string()));
}

#[test]
fn git_branch_fallbacks() {
    let mut p = probe();
    p.symbolic_ref = None;
    p.abbrev_ref = Some("HEAD\n".to_string());
    assert_eq!(Git.reading(&p).signals.branch.as_deref(), Some("HEAD"));
    p.abbrev_ref = None;
    assert_eq!(Git.reading(&p).signals.branch.as_deref(), Some("detached"));
    p.has_commits = false;
    p.symbolic_ref = Some("  \n".to_string());
    assert_eq!(Git.reading(&p).signals.branch.as_deref(), Some("no commits yet"));
}

#[test]
fn git_outside_a_repo_reads_nothing() {
    let mut p = probe();
    p.is_repo = false;
    let r = Git.reading(&p);
    assert!(r.observations.is_empty());
    assert!(!r.signals.in_git_repo);
    assert!(r.signals.branch.is_none());
}

#[test]
fn truncate_cuts_with_ellipsis() {
    assert_eq!(truncate("hello", 5), "hello");
    assert_eq!(truncate("hello!", 5), "hell…");
    assert_eq!(truncate("", 0), "");
    assert_eq!(truncate("éèê", 2), "é…");
}

#[test]
fn porcelain_paths() {
    assert_eq!(porcelain_path(" M src/main.rs").as_deref(), Some("src/main.rs"));
    assert_eq!(porcelain_path("?? \"odd name.txt\"").as_deref(), Some("odd name.txt"));
    assert_eq!(porcelain_path("?? a").as_deref(), Some("a"));
    assert_eq!(porcelain_path(" M "), None);
    assert_eq!(porcelain_path("é é").as_deref(), Some("é"));
    assert_eq!(porcelain_path("\"\"\"\"\"").as_deref(), Some(""));
}

#[test]
fn parse_left_right_counts() {
    assert_eq!(parse_lr("3\t2\n"), Some((3, 2)));
    assert_eq!(parse_lr("1 2 3"), Some((1, 2)));
    assert_eq!(parse_lr("x 1"), None);
    assert_eq!(parse_lr("7"), None);
    assert_eq!(parse_lr("4294967296 1"), None);
}

#[test]
fn github_reading_and_parsing() {
    let r = Github.reading(Some((1, 4)));
    assert_eq!(r.signals.gh_review_requests, 1);
    assert_eq!(r.signals.gh_notifications, 4);
    assert_eq!(
        lines_of(&r.observations),
        vec![(75, "gh".to_string(), "1 review request".to_string()), (50, "gh".to_string(), "4 notifications".to_string())]
    );
    let z = Github.reading(Some((0, 0)));
    assert!(z.observations.is_empty());
    assert!(Github.reading(None).observations.is_empty());
    assert_eq!(parse_cache("3 9"), Some((3, 9)));
    assert_eq!(parse_notifications(" 12\n"), Some(12));
    assert_eq!(parse_notifications("null"), None);
    assert_eq!(count_search_results("[{\"url\":\"a\"},{\"url\":\"b\"}]"), 2);
    assert_eq!(count_matches("aaaa", "aa"), 2);
    assert_eq!(count_matches("abc", ""), 0);
}

#[test]
fn system_thresholds() {
    let r = System.reading(Some((15, false)), Some(90));
    assert_eq!(r.signals.battery_pct, Some(15));
    assert_eq!(r.signals.on_ac, Some(false));
    assert_eq!(r.signals.disk_pct_used, Some(90));
    assert_eq!(
        lines_of(&r.observations),
        vec![(80, "bat".to_string(), "battery 15%".to_string()), (75, "dsk".to_string(), "disk 90% used".to_string())]
    );
    let c = System.reading(Some((5, true)), Some(84));
    assert_eq!(lines_of(&c.observations), vec![(90, "bat".to_string(), "battery 5% — plug in".to_string())]);
    let n = System.reading(None, None);
    assert!(n.observations.is_empty() && n.signals.battery_pct.is_none());
}

#[test]
fn battery_and_disk_parsing() {
    assert_eq!(battery_status("87\n", Some("Charging\n")), Some((87, true)));
    assert_eq!(battery_status("87", Some("Discharging")), Some((87, false)));
    assert_eq!(battery_status("87", None), Some((87, false)));
    assert_eq!(battery_status("n/a", Some("Full")), None);
    assert!(is_battery("BAT0"));
    assert!(!is_battery("AC"));
    let df = "Filesystem     1024-blocks      Used Available Capacity Mounted on\n/dev/sda1        100000     91000      9000      91% /\n";
    assert_eq!(df_used_pct(df), Some(91));
    assert_eq!(df_used_pct("header only\n"), None);
    assert_eq!(df_used_pct("h\na b c\n"), None);
}

#[test]
fn weather_words_and_priority() {
    assert_eq!(describe(0), "clear");
    assert_eq!(describe(2), "partly cloudy");
    assert_eq!(describe(3), "overcast");
    assert_eq!(describe(48), "fog");
    assert_eq!(describe(55), "drizzle");
    assert_eq!(describe(63), "rain");
    assert_eq!(describe(75), "snow");
    assert_eq!(describe(81), "showers");
    assert_eq!(describe(86), "snow showers");
    assert_eq!(describe(99), "storm");
    assert_eq!(describe(4), "");
    let cold = Temperature { rounded: -3, below_zero: true, below_five: true };
    let chilly = Temperature { rounded: 4, below_zero: false, below_five: true };
    let warm = Temperature { rounded: 14, below_zero: false, below_five: false };
    assert_eq!(priority_for_temp(cold), 65);
    assert_eq!(priority_for_temp(chilly), 55);
    assert_eq!(priority_for_temp(warm), 30);
    let r = Weather.reading(Some((warm, 0)));
    assert_eq!(lines_of(&r.observations), vec![(30, "wx".to_string(), "14° clear".to_string())]);
    assert_eq!(r.signals.temp_c, Some(warm));
    let s = Weather.reading(Some((cold, 73)));
    assert_eq!(s.observations[0].line, "-3° snow");
    assert!(Weather.reading(None).observations.is_empty());
}

#[test]
fn clock_wrappers() {
    assert_eq!(parse_day("2024-03-15"), Some(day(2024, 3, 15)));
    assert_eq!(parse_day("not a date"), None);
    assert_eq!(format_day(day(2024, 1, 2)).as_deref(), Some("2024-01-02"));
    assert_eq!(clock_label(day(2024, 3, 15), 8, 14).as_deref(), Some("Friday · 08:14"));
    assert_eq!(clock_label(day(2024, 3, 15), 24, 0), None);
}

fn file(last: Option<&str>, count: u32, longest: u32) -> StreakFile {
    StreakFile { last_seen: last.map(|s| s.to_string()), count, longest }
}

#[test]
fn streak_counting() {
    let today = day(2024, 1, 2);
    assert_eq!(compute_today_count(&file(Some("2024-01-01"), 6, 6), today), Some((7, true)));
    assert_eq!(compute_today_count(&file(Some("2024-01-02"), 6, 6), today), Some((6, false)));
    assert_eq!(compute_today_count(&file(Some("2024-01-02"), 0, 0), today), Some((1, false)));
    assert_eq!(compute_today_count(&file(Some("2023-12-25"), 6, 6), today), Some((1, true)));
    assert_eq!(compute_today_count(&file(None, 6, 6), today), Some((1, true)));
    assert_eq!(compute_today_count(&file(Some("garbage"), 6, 6), today), Some((1, true)));
    assert_eq!(compute_today_count(&file(Some("2024-01-01"), u32::MAX, 9), today), None);
}

#[test]
fn streak_milestones_and_reading() {
    for n in [7u32, 14, 30, 60, 100, 200, 365, 500, 1000] {
        assert!(is_milestone(n));
    }
    assert!(!is_milestone(8) && !is_milestone(0));
    let r = streak_reading(7);
    assert!(r.signals.streak_milestone);
    assert_eq!(r.signals.streak_days, 7);
    assert_eq!(lines_of(&r.observations), vec![(65, "◐".to_string(), "day 7 of your streak — well done".to_string())]);
    let s = streak_reading(3);
    assert_eq!(lines_of(&s.observations), vec![(25, "◐".to_string(), "day 3 of your streak".to_string())]);
    assert!(streak_reading(0).observations.is_empty());
    let read = Streak.reading(&file(Some("2024-01-01"), 6, 6), day(2024, 1, 2)).unwrap();
    assert!(read.signals.streak_milestone);
}

#[test]
fn streak_recording() {
    let today = day(2024, 1, 2);
    match next_record(&file(Some("2024-01-01"), 6, 6), today) {
        StreakStep::Write(f) => {
            assert_eq!(f.last_seen.as_deref(), Some("2024-01-02"));
            assert_eq!((f.count, f.longest), (7, 7));
            assert!(matches!(next_record(&f, today), StreakStep::Keep));
            assert_eq!(compute_today_count(&f, today), Some((7, false)));
        }
        _ => panic!("expected a write"),
    }
    match next_record(&file(Some("2023-11-01"), 6, 9), today) {
        StreakStep::Write(f) => assert_eq!((f.count, f.longest), (1, 9)),
        _ => panic!("expected a write"),
    }
    match next_record(&file(None, 0, 0), today) {
        StreakStep::Write(f) => assert_eq!((f.count, f.longest), (1, 1)),
        _ => panic!("expected a write"),
    }
    assert!(matches!(next_record(&file(Some("2024-01-02"), 3, 3), today), StreakStep::Keep));
    assert!(matches!(next_record(&file(Some("2024-01-01"), u32::MAX, 3), today), StreakStep::Overflow));
}

#[test]
fn streak_reading_unchanged_by_recording_today() {
    let today = day(2024, 1, 2);
    for f0 in [file(Some("2024-01-01"), 6, 6), file(Some("2023-06-01"), 40, 40), file(None, 0, 0), file(Some("bad"), 2, 2)] {
        let before = Streak.reading(&f0, today).unwrap();
        let StreakStep::Write(f1) = next_record(&f0, today) else { panic!("expected a write") };
        let after = Streak.reading(&f1, today).unwrap();
        assert_eq!(after.signals.streak_days, before.signals.streak_days);
        assert_eq!(after.signals.streak_milestone, before.signals.streak_milestone);
        assert_eq!(lines_of(&after.observations), lines_of(&before.observations));
        assert!(matches!(next_record(&f1, today), StreakStep::Keep));
    }
}

#[test]
fn format_day_reads_back() {
    for d in [day(2024, 2, 29), day(1970, 1, 1), day(1, 1, 1), day(9999, 12, 31)] {
        let text = format_day(d).unwrap();
        assert_eq!(parse_day(&text), Some(d));
    }
}

#[test]
fn fresh_caches() {
    assert!(is_fresh(0, 60));
    assert!(is_fresh(60, 60));
    assert!(!is_fresh(61, 60));
    assert!(is_fresh(1800, 1800));
    assert!(!is_fresh(1801, 1800));
}

#[test]
fn github_steps() {
    assert_eq!(github_next(GhEvent::Cache(Some((2, 5)))), GhAction::Show(Some((2, 5))));
    assert_eq!(github_next(GhEvent::Cache(None)), GhAction::CheckInstalled);
    assert_eq!(github_next(GhEvent::Installed(false)), GhAction::Show(None));
    assert_eq!(github_next(GhEvent::Installed(true)), GhAction::Count);
    assert_eq!(github_next(GhEvent::Counted(Some(3), Some(1))), GhAction::CacheAndShow(3, 1));
    assert_eq!(github_next(GhEvent::Counted(None, Some(4))), GhAction::CacheAndShow(0, 4));
    assert_eq!(github_next(GhEvent::Counted(Some(1), None)), GhAction::CacheAndShow(1, 0));
}

#[test]
fn oldest_change_ages() {
    let now = (1_000_000i64, 500_000_000u32);
    assert_eq!(oldest_change_age(&vec![], now), None);
    assert_eq!(oldest_change_age(&vec![(999_000, 600_000_000), (990_000, 0), (999_999, 0)], now), Some(10_000));
    assert_eq!(oldest_change_age(&vec![(999_999, 600_000_000)], now), Some(0));
    assert_eq!(oldest_change_age(&vec![(999_998, 600_000_000)], now), Some(1));
    assert_eq!(oldest_change_age(&vec![(1_000_001, 0)], now), None);
    assert_eq!(oldest_change_age(&vec![(1_000_000, 500_000_000)], now), Some(0));
    assert_eq!(oldest_change_age(&vec![(-5, 999_999_999), (2_000_000, 0)], (5, 0)), Some(9));
}
