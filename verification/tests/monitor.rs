use ssl_core::config::{default_monitor_config, default_profile, MonitorConfig, Profile};
use ssl_core::cron::LocalMinute;
use ssl_core::monitor::{next_monitor_run, selected_profiles, MonitorError, NextRun};
use ssl_core::smap::StrMap;
use chrono::{Datelike, Duration, NaiveDate, Timelike};

fn now() -> LocalMinute {
    LocalMinute { year: 2026, month: 6, day: 30, hour: 10, minute: 30, weekday: 2 }
}

/// The clock from the minute after 2026-06-30 10:30, without daylight saving.
fn clock(j: u32) -> LocalMinute {
    let t = NaiveDate::from_ymd_opt(2026, 6, 30).unwrap().and_hms_opt(10, 31, 0).unwrap()
        + Duration::minutes(j as i64);
    LocalMinute {
        year: t.year(),
        month: t.month(),
        day: t.day(),
        hour: t.hour(),
        minute: t.minute(),
        weekday: t.weekday().num_days_from_sunday(),
    }
}

fn config(mode: &str) -> MonitorConfig {
    let mut c = default_monitor_config();
    c.mode = mode.to_string();
    c
}

#[test]
fn daily_run_today_or_tomorrow() {
    let mut c = config("daily");
    c.daily_time = "11:05".to_string();
    match next_monitor_run(&c, now(), clock).ok().unwrap() {
        NextRun::Daily { today, next_day } => {
            assert_eq!((today.day, today.hour, today.minute, next_day), (30, 11, 5, false))
        }
        _ => panic!("expected a time"),
    }
    c.daily_time = "10:30".to_string();
    match next_monitor_run(&c, now(), clock).ok().unwrap() {
        NextRun::Daily { today, next_day } => {
            assert_eq!((today.month, today.day, today.hour, today.minute, next_day), (6, 30, 10, 30, true))
        }
        _ => panic!("expected a time"),
    }
}

#[test]
fn bad_daily_time_is_reported() {
    let mut c = config("daily");
    c.daily_time = "25:00".to_string();
    assert!(matches!(next_monitor_run(&c, now(), clock), Err(MonitorError::DailyTime(_))));
}

#[test]
fn interval_is_at_least_one_minute() {
    let mut c = config("interval");
    c.interval_minutes = 0;
    assert!(matches!(next_monitor_run(&c, now(), clock), Ok(NextRun::AfterMinutes(1))));
    c.interval_minutes = 45;
    assert!(matches!(next_monitor_run(&c, now(), clock), Ok(NextRun::AfterMinutes(45))));
}

#[test]
fn cron_mode_uses_the_expression() {
    let mut c = config("cron");
    c.cron_expression = "0 10 * * *".to_string();
    match next_monitor_run(&c, now(), clock).ok().unwrap() {
        NextRun::At { offset, at } => {
            assert_eq!((at.month, at.day, at.hour, at.minute), (7, 1, 10, 0));
            assert_eq!(offset, 23 * 60 + 29);
        }
        _ => panic!("expected a time"),
    }
    c.cron_expression = "bad".to_string();
    assert!(matches!(next_monitor_run(&c, now(), clock), Err(MonitorError::Cron(_))));
}

#[test]
fn selected_profiles_follow_the_monitor_list() {
    let mut profiles: StrMap<Profile> = StrMap::new();
    profiles.insert("*.a.com".to_string(), default_profile("*.a.com"));
    profiles.insert("*.b.com".to_string(), default_profile("*.b.com"));
    let mut c = default_monitor_config();
    c.profiles = vec!["*.b.com".to_string(), "*.missing.com".to_string(), "*.a.com".to_string()];
    let chosen = selected_profiles(&c, &profiles);
    let names: Vec<&str> = chosen.iter().map(|(k, _)| k.as_str()).collect();
    assert_eq!(names, vec!["*.b.com", "*.a.com"]);
    assert_eq!(chosen[0].1.domain, "*.b.com");
}
