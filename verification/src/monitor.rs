//! When the background monitor runs next, and which profiles it renews.
use crate::config::{MonitorConfig, Profile};
use crate::cron::{
    cron_next_run, minute_matches, none_before, schedule_of, steady_clock, CronError, CronReason,
    LocalMinute, SEARCH_MINUTES,
};
use crate::smap::StrMap;
use crate::text::str_eq;
use vstd::prelude::*;

verus! {

/// `chrono::NaiveTime::parse_from_str(text, "%H:%M")`: the hour and the
/// minute, or the text of chrono's parse error.
pub uninterp spec fn spec_parse_hm(text: Seq<char>) -> Result<(u32, u32), Seq<char>>;

/// Reads a daily time with chrono; the hour is below 24 and the minute
/// below 60.
#[verifier::external_body]
fn parse_hour_minute(text: &str) -> (r: Result<(u32, u32), String>)
    ensures
        match r {
            Ok((h, m)) => spec_parse_hm(text@) == Ok::<(u32, u32), Seq<char>>((h, m)) && h < 24
                && m < 60,
            Err(e) => spec_parse_hm(text@) == Err::<(u32, u32), Seq<char>>(e@),
        },
{
    match chrono::NaiveTime::parse_from_str(text, "%H:%M") {
        Ok(t) => Ok((chrono::Timelike::hour(&t), chrono::Timelike::minute(&t))),
        Err(e) => Err(e.to_string()),
    }
}

/// When the monitor runs next.
pub enum NextRun {
    /// The cron run: `offset + 1` minutes after the current minute began,
    /// when the local clock shows `at`.
    At { offset: u32, at: LocalMinute },
    /// The daily run: today at the local minute `today`, or 24 hours after
    /// that instant when `next_day`. Today's minute has to occur exactly
    /// once on the local clock.
    Daily { today: LocalMinute, next_day: bool },
    /// This many minutes after now.
    AfterMinutes(u64),
}

pub enum MonitorError {
    Cron(CronError),
    DailyTime(String),
}

/// The same calendar day at another time of day.
pub open spec fn at_time(t: LocalMinute, hour: u32, minute: u32) -> LocalMinute {
    LocalMinute { hour, minute, ..t }
}

/// Whether today's `hour:minute` (second zero) is already past at `now`:
/// then the run is a day later.
pub open spec fn daily_passed(now: LocalMinute, hour: u32, minute: u32) -> bool {
    !(hour > now.hour || (hour == now.hour && minute > now.minute))
}

/// The daily run moves to the next day exactly when today's `hour:minute`
/// is not later than now's in the order of the day (minute counts), so the
/// run is never before now.
pub proof fn lemma_daily_run_not_before_now(now: LocalMinute, hour: u32, minute: u32)
    requires
        minute < 60,
        now.minute < 60,
    ensures
        daily_passed(now, hour, minute) <==> hour * 60 + minute <= now.hour * 60 + now.minute,
        !daily_passed(now, hour, minute) ==> hour * 60 + minute > now.hour * 60 + now.minute,
{
}

/// Which run comes next for a monitor configuration at the local minute
/// `now`: by the cron expression (`cron`, searched along `clock` as
/// `cron_next_run` does), after the interval (`interval`, at least one
/// minute), or daily at `HH:MM` (any other mode).
pub fn next_monitor_run<F: Fn(u32) -> LocalMinute>(config: &MonitorConfig, now: LocalMinute, clock: F) -> (r: Result<
    NextRun,
    MonitorError,
>)
    requires
        steady_clock(clock),
    ensures
        config.mode@ == "cron"@ ==> match r {
            Ok(NextRun::At { offset, at }) => schedule_of(config.cron_expression@) matches Ok(s)
                && offset <= SEARCH_MINUTES && call_ensures(clock, (offset,), at) && minute_matches(s, at)
                && none_before(s, clock, offset as int),
            Ok(_) => false,
            Err(MonitorError::Cron(e)) => match schedule_of(config.cron_expression@) {
                Err(p) => e@ == p,
                Ok(s) => e@ == CronReason::NotFound && none_before(s, clock, SEARCH_MINUTES + 1),
            },
            Err(MonitorError::DailyTime(_)) => false,
        },
        config.mode@ == "interval"@ ==> r == Ok::<NextRun, MonitorError>(
            NextRun::AfterMinutes(if config.interval_minutes == 0 {
                1
            } else {
                config.interval_minutes
            }),
        ),
        config.mode@ != "cron"@ && config.mode@ != "interval"@ ==> match spec_parse_hm(
            config.daily_time@,
        ) {
            Ok((h, m)) => h < 24 && m < 60 && r == Ok::<NextRun, MonitorError>(
                NextRun::Daily { today: at_time(now, h, m), next_day: daily_passed(now, h, m) },
            ),
            Err(text) => r matches Err(MonitorError::DailyTime(e)) && e@ == text,
        },
{
    proof {
        reveal_strlit("cron");
        reveal_strlit("interval");
        assert("cron"@.len() == 4);
        assert("interval"@.len() == 8);
    }
    if str_eq(config.mode.as_str(), "cron") {
        return match cron_next_run(config.cron_expression.as_str(), clock) {
            Ok((offset, at)) => Ok(NextRun::At { offset, at }),
            Err(e) => Err(MonitorError::Cron(e)),
        };
    }
    if str_eq(config.mode.as_str(), "interval") {
        let n = if config.interval_minutes == 0 {
            1
        } else {
            config.interval_minutes
        };
        return Ok(NextRun::AfterMinutes(n));
    }
    let (hour, minute) = match parse_hour_minute(config.daily_time.as_str()) {
        Ok(hm) => hm,
        Err(e) => {
            return Err(MonitorError::DailyTime(e));
        },
    };
    let next_day = !(hour > now.hour || (hour == now.hour && minute > now.minute));
    Ok(NextRun::Daily { today: LocalMinute { hour, minute, ..now }, next_day })
}

/// The domains of `wanted` that have a profile, in order.
pub open spec fn selected_domains(wanted: Seq<String>, m: Map<Seq<char>, Profile>) -> Seq<
    Seq<char>,
> {
    wanted.map_values(|d: String| d@).filter(|d: Seq<char>| m.dom().contains(d))
}

/// The profiles the monitor renews: each domain it lists that has a
/// profile, in the order listed, with that profile.
pub fn selected_profiles<'a>(config: &MonitorConfig, profiles: &'a StrMap<Profile>) -> (r: Vec<
    (&'a String, &'a Profile),
>)
    requires
        profiles.wf(),
    ensures
        r@.map_values(|p: (&String, &Profile)| p.0@) == selected_domains(
            config.profiles@,
            profiles.as_map(),
        ),
        forall|i: int|
            0 <= i < r@.len() ==> *(#[trigger] r@[i]).1 == profiles.as_map()[r@[i].0@],
{
    let ghost want = config.profiles@.map_values(|d: String| d@);
    let ghost f = |d: Seq<char>| profiles.as_map().dom().contains(d);
    let mut out: Vec<(&'a String, &'a Profile)> = Vec::new();
    let mut i: usize = 0;
    while i < config.profiles.len()
        invariant
            profiles.wf(),
            i <= config.profiles@.len(),
            want == config.profiles@.map_values(|d: String| d@),
            f == (|d: Seq<char>| profiles.as_map().dom().contains(d)),
            out@.map_values(|p: (&String, &Profile)| p.0@) == want.take(i as int).filter(f),
            forall|j: int|
                0 <= j < out@.len() ==> *(#[trigger] out@[j]).1 == profiles.as_map()[out@[j].0@],
        decreases config.profiles@.len() - i,
    {
        proof {
            assert(want.take(i + 1) =~= want.take(i as int).push(want[i as int]));
            want.take(i as int).lemma_filter_push(want[i as int], f);
        }
        match profiles.find(config.profiles[i].as_str()) {
            Some(k) => {
                let key = profiles.key_at(k);
                let value = profiles.value_at(k);
                let ghost before = out@.map_values(|p: (&String, &Profile)| p.0@);
                out.push((key, value));
                proof {
                    assert(out@.map_values(|p: (&String, &Profile)| p.0@) =~= before.push(key@));
                }
            },
            None => {},
        }
        i = i + 1;
    }
    proof {
        assert(want.take(config.profiles@.len() as int) =~= want);
    }
    out
}

} // verus!
