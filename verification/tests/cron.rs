use chrono::{DateTime, Datelike, Duration, Local, NaiveDate, NaiveDateTime, TimeZone, Timelike};
use ssl_core::cron::{cron_next_run, parse_field, CronError, LocalMinute};

fn minute_of<T: Datelike + Timelike>(t: &T) -> LocalMinute {
    LocalMinute {
        year: t.year(),
        month: t.month(),
        day: t.day(),
        hour: t.hour(),
        minute: t.minute(),
        weekday: t.weekday().num_days_from_sunday(),
    }
}

/// The local clock from the minute after `now`, as the original steps it.
fn run_local(expression: &str, now: DateTime<Local>) -> Result<DateTime<Local>, CronError> {
    let start = now.with_second(0).unwrap().with_nanosecond(0).unwrap() + Duration::minutes(1);
    let (k, t) = cron_next_run(expression, |j: u32| minute_of(&(start + Duration::minutes(j as i64))))?;
    let at = start + Duration::minutes(k as i64);
    assert_eq!((at.hour(), at.minute()), (t.hour, t.minute));
    Ok(at)
}

/// A clock without daylight saving, from the minute after the given one.
fn run_plain(expression: &str, year: i32, month: u32, day: u32, hour: u32, minute: u32) -> Result<LocalMinute, CronError> {
    let now: NaiveDateTime = NaiveDate::from_ymd_opt(year, month, day).unwrap().and_hms_opt(hour, minute, 30).unwrap();
    let start = now.with_second(0).unwrap() + Duration::minutes(1);
    cron_next_run(expression, |j: u32| minute_of(&(start + Duration::minutes(j as i64)))).map(|(_, t)| t)
}

#[test]
fn daily_ten() {
    let now = Local.with_ymd_and_hms(2026, 6, 24, 9, 59, 0).unwrap();
    let next = run_local("0 10 * * *", now).ok().unwrap();
    assert_eq!(next.hour(), 10);
    assert_eq!(next.minute(), 0);
}

#[test]
fn every_thirty_minutes() {
    let now = Local.with_ymd_and_hms(2026, 6, 24, 10, 1, 0).unwrap();
    let next = run_local("*/30 * * * *", now).ok().unwrap();
    assert_eq!(next.minute(), 30);
}

#[test]
fn next_run_is_strictly_after_now() {
    let next = run_plain("0 10 * * *", 2026, 6, 24, 10, 0).ok().unwrap();
    assert_eq!((next.month, next.day, next.hour, next.minute, next.weekday), (6, 25, 10, 0, 4));
}

#[test]
fn weekday_seven_is_sunday_and_days_combine_with_or() {
    let next = run_plain("0 0 * * 7", 2026, 6, 24, 10, 0).ok().unwrap();
    assert_eq!((next.month, next.day, next.weekday), (6, 28, 0));
    let either = run_plain("0 0 30 * 5", 2026, 6, 24, 10, 0).ok().unwrap();
    assert_eq!((either.month, either.day), (6, 26));
}

#[test]
fn year_end_and_leap_day_roll_over() {
    let next = run_plain("0 0 1 1 *", 2026, 12, 31, 23, 59).ok().unwrap();
    assert_eq!((next.year, next.month, next.day, next.weekday), (2027, 1, 1, 5));
    let leap = run_plain("0 0 29 2 *", 2026, 6, 24, 10, 0).ok().unwrap();
    assert_eq!((leap.year, leap.month, leap.day), (2028, 2, 29));
}

#[test]
fn the_search_follows_the_clock_it_is_given() {
    // A clock that shows 01:59 and then 01:00 again, as when daylight
    // saving ends: the minute that comes round again is found again.
    let shown = |j: u32| {
        let minute = if j == 0 { 59 } else { j - 1 };
        LocalMinute { year: 2026, month: 11, day: 1, hour: 1, minute: minute % 60, weekday: 0 }
    };
    let (k, t) = cron_next_run("10 1 * * *", shown).ok().unwrap();
    assert_eq!((k, t.hour, t.minute), (11, 1, 10));
}

#[test]
fn unmatched_expression_is_reported() {
    let err = run_plain("0 0 31 2 *", 2026, 6, 24, 10, 0).err().unwrap();
    assert_eq!(err.message(), "未来 5 年内找不到匹配的 Cron 执行时间");
}

#[test]
fn malformed_expressions_are_refused() {
    let run = |e: &str| run_plain(e, 2026, 6, 24, 10, 0).err().unwrap().message();
    assert_eq!(run("0 10 * *"), "Cron 表达式必须是 5 段：分钟 小时 日 月 周，例如 0 10 * * *");
    assert_eq!(run("0, 10 * * *"), "Cron 表达式包含空字段");
    assert_eq!(run("*/0 * * * *"), "Cron 步进值必须大于 0");
    assert_eq!(run("0 24 * * *"), "Cron 字段超出范围：24");
    assert_eq!(run("x * * * *"), "invalid digit found in string");
    assert_eq!(run("99999999999 * * * *"), "number too large to fit in target type");
    assert_eq!(run("5- * * * *"), "cannot parse integer from empty string");
}

#[test]
fn fields_allow_lists_ranges_and_steps() {
    let f = parse_field("1-10/3,+20, 59", 0, 59, false).ok().unwrap();
    let allowed: Vec<u32> = (0..60).filter(|v| f.contains(*v)).collect();
    assert_eq!(allowed, vec![1, 4, 7, 10, 20, 59]);
    let w = parse_field("5-7", 0, 7, true).ok().unwrap();
    let days: Vec<u32> = (0..8).filter(|v| w.contains(*v)).collect();
    assert_eq!(days, vec![0, 5, 6]);
}
