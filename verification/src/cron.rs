//! Five-field cron expressions (minute, hour, day, month, weekday) and the
//! next wall-clock minute one of them matches.
use crate::text::{
    is_digit, parse_u32, split, split_char, split_once, split_once_char, split_whitespace, str_eq,
    trim, trim_ws, u32_value, words, IntProblem,
};
use vstd::prelude::*;

verus! {

/// Why an expression has no next run.
pub enum CronReason {
    FieldCount,
    EmptyField,
    ZeroStep,
    OutOfRange { part: Seq<char> },
    Number { problem: IntProblem },
    NotFound,
}

pub enum CronError {
    FieldCount,
    EmptyField,
    ZeroStep,
    OutOfRange { part: String },
    Number { problem: IntProblem },
    NotFound,
}

impl View for CronError {
    type V = CronReason;

    open spec fn view(&self) -> CronReason {
        match self {
            CronError::FieldCount => CronReason::FieldCount,
            CronError::EmptyField => CronReason::EmptyField,
            CronError::ZeroStep => CronReason::ZeroStep,
            CronError::OutOfRange { part } => CronReason::OutOfRange { part: part@ },
            CronError::Number { problem } => CronReason::Number { problem: *problem },
            CronError::NotFound => CronReason::NotFound,
        }
    }
}

/// The text a problem is reported with.
pub open spec fn cron_message(r: CronReason) -> Seq<char> {
    match r {
        CronReason::FieldCount => "Cron 表达式必须是 5 段：分钟 小时 日 月 周，例如 0 10 * * *"@,
        CronReason::EmptyField => "Cron 表达式包含空字段"@,
        CronReason::ZeroStep => "Cron 步进值必须大于 0"@,
        CronReason::OutOfRange { part } => "Cron 字段超出范围："@ + part,
        CronReason::Number { problem } => problem.text(),
        CronReason::NotFound => "未来 5 年内找不到匹配的 Cron 执行时间"@,
    }
}

impl CronError {
    pub fn message(&self) -> (r: String)
        ensures
            r@ == cron_message(self@),
    {
        match self {
            CronError::FieldCount => String::from_str(
                "Cron 表达式必须是 5 段：分钟 小时 日 月 周，例如 0 10 * * *",
            ),
            CronError::EmptyField => String::from_str("Cron 表达式包含空字段"),
            CronError::ZeroStep => String::from_str("Cron 步进值必须大于 0"),
            CronError::OutOfRange { part } => crate::text::cat("Cron 字段超出范围：", part.as_str()),
            CronError::Number { problem } => problem.message(),
            CronError::NotFound => String::from_str("未来 5 年内找不到匹配的 Cron 执行时间"),
        }
    }
}

/// The values `start`, `start + step`, ... up to `end`.
pub open spec fn range_values(start: int, end: int, step: int) -> Set<int> {
    Set::new(|v: int| start <= v <= end && (v - start) % step == 0)
}

/// The number a field piece names.
pub open spec fn number_of(s: Seq<char>) -> Result<int, CronReason> {
    match u32_value(s) {
        Ok(v) => Ok(v),
        Err(e) => Err(CronReason::Number { problem: e }),
    }
}

/// The step of a comma-separated piece: after `/`, else 1.
pub open spec fn step_of(p: Seq<char>) -> Result<int, CronReason> {
    match split_once(p, '/') {
        Some((_, st)) => match number_of(st) {
            Ok(v) => if v == 0 {
                Err(CronReason::ZeroStep)
            } else {
                Ok(v)
            },
            Err(e) => Err(e),
        },
        None => Ok(1),
    }
}

/// The bounds a piece's base names: `*` for the whole range, `a-b`, or one
/// number.
pub open spec fn bounds_of(base: Seq<char>, min: u32, max: u32) -> Result<(int, int), CronReason> {
    if base == "*"@ {
        Ok((min as int, max as int))
    } else {
        match split_once(base, '-') {
            Some((a, b)) => match number_of(a) {
                Ok(x) => match number_of(b) {
                    Ok(y) => Ok((x, y)),
                    Err(e) => Err(e),
                },
                Err(e) => Err(e),
            },
            None => match number_of(base) {
                Ok(x) => Ok((x, x)),
                Err(e) => Err(e),
            },
        }
    }
}

/// The start, end and step one comma-separated piece of a field names, or
/// its first problem.
pub open spec fn piece_range(part: Seq<char>, min: u32, max: u32) -> Result<(int, int, int), CronReason> {
    let p = trim_ws(part);
    let base = match split_once(p, '/') {
        Some((b, _)) => b,
        None => p,
    };
    if p.len() == 0 {
        Err(CronReason::EmptyField)
    } else {
        match step_of(p) {
            Err(e) => Err(e),
            Ok(step) => match bounds_of(base, min, max) {
                Err(e) => Err(e),
                Ok((start, end)) => if start > end || start < min || start > max || end < min || end
                    > max {
                    Err(CronReason::OutOfRange { part: p })
                } else {
                    Ok((start, end, step))
                },
            },
        }
    }
}

/// The values the pieces allow together, or the first piece's problem.
pub open spec fn pieces_values(parts: Seq<Seq<char>>, min: u32, max: u32) -> Result<
    Set<int>,
    CronReason,
>
    decreases parts.len(),
{
    if parts.len() == 0 {
        Ok(Set::empty())
    } else {
        match pieces_values(parts.drop_last(), min, max) {
            Err(e) => Err(e),
            Ok(s) => match piece_range(parts.last(), min, max) {
                Err(e) => Err(e),
                Ok((a, b, st)) => Ok(s.union(range_values(a, b, st))),
            },
        }
    }
}

/// The values a field allows; in the weekday field 7 stands for 0
/// (Sunday).
pub open spec fn field_values(field: Seq<char>, min: u32, max: u32, weekday: bool) -> Result<
    Set<int>,
    CronReason,
> {
    match pieces_values(split(field, ','), min, max) {
        Err(e) => Err(e),
        Ok(s) => Ok(
            if weekday && s.contains(7) {
                s.remove(7).insert(0)
            } else {
                s
            },
        ),
    }
}

/// The values one field allows: `allowed[v]` for `0 <= v < 60`.
pub struct CronField {
    pub allowed: Vec<bool>,
}

impl CronField {
    pub open spec fn values(self) -> Set<int> {
        Set::new(|v: int| 0 <= v < self.allowed@.len() && self.allowed@[v])
    }

    pub open spec fn wf(self) -> bool {
        self.allowed@.len() == 60
    }

    pub fn contains(&self, v: u32) -> (r: bool)
        requires
            self.wf(),
        ensures
            r == self.values().contains(v as int),
    {
        v < 60 && self.allowed[v as usize]
    }
}

fn piece_bounds(part: &str, min: u32, max: u32) -> (r: Result<(u32, u32, u32), CronError>)
    ensures
        match r {
            Ok((a, b, st)) => piece_range(part@, min, max) == Ok::<(int, int, int), CronReason>(
                (a as int, b as int, st as int),
            ),
            Err(e) => piece_range(part@, min, max) == Err::<(int, int, int), CronReason>(e@),
        },
{
    proof {
        reveal_strlit("*");
    }
    let p = trim(part);
    if p.unicode_len() == 0 {
        return Err(CronError::EmptyField);
    }
    let (base, step) = match split_once_char(p, '/') {
        Some((b, st)) => {
            let v = match parse_u32(st) {
                Ok(v) => v,
                Err(e) => {
                    return Err(CronError::Number { problem: e });
                },
            };
            if v == 0 {
                return Err(CronError::ZeroStep);
            }
            (b, v)
        },
        None => (p, 1u32),
    };
    let (start, end) = if str_eq(base, "*") {
        (min, max)
    } else {
        match split_once_char(base, '-') {
            Some((a, b)) => {
                let x = match parse_u32(a) {
                    Ok(v) => v,
                    Err(e) => {
                        return Err(CronError::Number { problem: e });
                    },
                };
                let y = match parse_u32(b) {
                    Ok(v) => v,
                    Err(e) => {
                        return Err(CronError::Number { problem: e });
                    },
                };
                (x, y)
            },
            None => {
                let x = match parse_u32(base) {
                    Ok(v) => v,
                    Err(e) => {
                        return Err(CronError::Number { problem: e });
                    },
                };
                (x, x)
            },
        }
    };
    if start > end || start < min || start > max || end < min || end > max {
        return Err(CronError::OutOfRange { part: crate::text::owned(p) });
    }
    Ok((start, end, step))
}

proof fn lemma_pieces_err_stays(parts: Seq<Seq<char>>, j: int, min: u32, max: u32)
    requires
        1 <= j <= parts.len(),
        pieces_values(parts.take(j), min, max) is Err,
    ensures
        pieces_values(parts.take(parts.len() as int), min, max) == pieces_values(
            parts.take(j),
            min,
            max,
        ),
    decreases parts.len() - j,
{
    if j < parts.len() {
        assert(parts.take(j + 1).drop_last() =~= parts.take(j));
        lemma_pieces_err_stays(parts, j + 1, min, max);
    }
}

/// Reads one field of a cron expression: comma-separated pieces, each `*`,
/// `a`, or `a-b`, optionally followed by `/step`, within `min..=max`.
pub fn parse_field(field: &str, min: u32, max: u32, weekday: bool) -> (r: Result<
    CronField,
    CronError,
>)
    requires
        min <= max < 60,
    ensures
        match r {
            Ok(f) => f.wf() && field_values(field@, min, max, weekday) == Ok::<
                Set<int>,
                CronReason,
            >(f.values()),
            Err(e) => field_values(field@, min, max, weekday) == Err::<Set<int>, CronReason>(e@),
        },
{
    let parts = split_char(field, ',');
    let ghost pv = parts@.map_values(|p: String| p@);
    let mut allowed: Vec<bool> = Vec::new();
    let mut w: usize = 0;
    while w < 60
        invariant
            w <= 60,
            allowed@.len() == w,
            forall|k: int| 0 <= k < w ==> !allowed@[k],
        decreases 60 - w,
    {
        allowed.push(false);
        w = w + 1;
    }
    let mut i: usize = 0;
    while i < parts.len()
        invariant
            min <= max < 60,
            i <= parts@.len(),
            pv == parts@.map_values(|p: String| p@),
            pv == split(field@, ','),
            allowed@.len() == 60,
            pieces_values(pv.take(i as int), min, max) matches Ok(s) && (forall|v: int|
                #![trigger s.contains(v)]
                s.contains(v) <==> (0 <= v < 60 && allowed@[v])),
        decreases parts@.len() - i,
    {
        let ghost prev = pieces_values(pv.take(i as int), min, max)->Ok_0;
        proof {
            assert(pv.take(i + 1).drop_last() =~= pv.take(i as int));
            assert(pv.take(i + 1).last() == parts@[i as int]@);
        }
        let (start, end, step) = match piece_bounds(parts[i].as_str(), min, max) {
            Ok(t) => t,
            Err(e) => {
                proof {
                    assert(pieces_values(pv.take(i + 1), min, max) == Err::<Set<int>, CronReason>(
                        e@,
                    ));
                    lemma_pieces_err_stays(pv, i + 1, min, max);
                    assert(pv.take(parts@.len() as int) =~= pv);
                }
                return Err(e);
            },
        };
        let ghost before = allowed@;
        let mut v: u32 = 0;
        while v < 60
            invariant
                v <= 60,
                allowed@.len() == 60,
                before.len() == 60,
                min <= start <= end <= max < 60,
                step > 0,
                forall|k: int|
                    0 <= k < 60 ==> #[trigger] allowed@[k] == (before[k] || (k < v && start <= k
                        <= end && (k - start) % (step as int) == 0)),
            decreases 60 - v,
        {
            if start <= v && v <= end && (v - start) % step == 0 {
                allowed.set(v as usize, true);
            }
            v = v + 1;
        }
        proof {
            let s = prev.union(range_values(start as int, end as int, step as int));
            assert(pieces_values(pv.take(i + 1), min, max) == Ok::<Set<int>, CronReason>(s));
            assert forall|k: int| #![trigger s.contains(k)] s.contains(k) <==> (0 <= k < 60
                && allowed@[k]) by {
                if range_values(start as int, end as int, step as int).contains(k) {
                    assert(0 <= k < 60);
                }
            }
        }
        i = i + 1;
    }
    proof {
        assert(pv.take(parts@.len() as int) =~= pv);
    }
    let ghost s = pieces_values(pv, min, max)->Ok_0;
    if weekday && allowed[7] {
        allowed.set(7, false);
        allowed.set(0, true);
    }
    let f = CronField { allowed };
    proof {
        let fs = field_values(field@, min, max, weekday)->Ok_0;
        assert(fs =~= f.values());
    }
    Ok(f)
}

/// A local wall-clock minute and its weekday (0 is Sunday).
#[derive(Clone, Copy)]
pub struct LocalMinute {
    pub year: i32,
    pub month: u32,
    pub day: u32,
    pub hour: u32,
    pub minute: u32,
    pub weekday: u32,
}

/// What an expression allows.
pub struct CronSpec {
    pub minutes: Set<int>,
    pub hours: Set<int>,
    pub days: Set<int>,
    pub months: Set<int>,
    pub weekdays: Set<int>,
    pub day_star: bool,
    pub weekday_star: bool,
}

/// The sets an expression's five fields allow, or its first problem.
pub open spec fn schedule_of(expr: Seq<char>) -> Result<CronSpec, CronReason> {
    let parts = words(expr);
    if parts.len() != 5 {
        Err(CronReason::FieldCount)
    } else {
        match field_values(parts[0], 0, 59, false) {
            Err(e) => Err(e),
            Ok(mi) => match field_values(parts[1], 0, 23, false) {
                Err(e) => Err(e),
                Ok(h) => match field_values(parts[2], 1, 31, false) {
                    Err(e) => Err(e),
                    Ok(d) => match field_values(parts[3], 1, 12, false) {
                        Err(e) => Err(e),
                        Ok(mo) => match field_values(parts[4], 0, 7, true) {
                            Err(e) => Err(e),
                            Ok(w) => Ok(
                                CronSpec {
                                    minutes: mi,
                                    hours: h,
                                    days: d,
                                    months: mo,
                                    weekdays: w,
                                    day_star: parts[2] == "*"@,
                                    weekday_star: parts[4] == "*"@,
                                },
                            ),
                        },
                    },
                },
            },
        }
    }
}

/// Whether a minute matches: minute, hour and month must, and then the day
/// of the month or of the week as cron combines them (either one when both
/// are restricted).
pub open spec fn minute_matches(s: CronSpec, t: LocalMinute) -> bool {
    let day_match = s.days.contains(t.day as int);
    let weekday_match = s.weekdays.contains(t.weekday as int);
    &&& s.minutes.contains(t.minute as int)
    &&& s.hours.contains(t.hour as int)
    &&& s.months.contains(t.month as int)
    &&& if s.day_star && s.weekday_star {
        true
    } else if s.day_star {
        weekday_match
    } else if s.weekday_star {
        day_match
    } else {
        day_match || weekday_match
    }
}

/// A parsed expression.
pub struct CronSchedule {
    pub minutes: CronField,
    pub hours: CronField,
    pub days: CronField,
    pub months: CronField,
    pub weekdays: CronField,
    pub day_star: bool,
    pub weekday_star: bool,
}

impl CronSchedule {
    pub open spec fn wf(self) -> bool {
        &&& self.minutes.wf()
        &&& self.hours.wf()
        &&& self.days.wf()
        &&& self.months.wf()
        &&& self.weekdays.wf()
    }

    pub open spec fn spec(self) -> CronSpec {
        CronSpec {
            minutes: self.minutes.values(),
            hours: self.hours.values(),
            days: self.days.values(),
            months: self.months.values(),
            weekdays: self.weekdays.values(),
            day_star: self.day_star,
            weekday_star: self.weekday_star,
        }
    }

    pub fn matches(&self, t: &LocalMinute) -> (r: bool)
        requires
            self.wf(),
        ensures
            r == minute_matches(self.spec(), *t),
    {
        if !self.minutes.contains(t.minute) || !self.hours.contains(t.hour) || !self.months.contains(
            t.month,
        ) {
            return false;
        }
        let day_match = self.days.contains(t.day);
        let weekday_match = self.weekdays.contains(t.weekday);
        if self.day_star && self.weekday_star {
            true
        } else if self.day_star {
            weekday_match
        } else if self.weekday_star {
            day_match
        } else {
            day_match || weekday_match
        }
    }
}

/// Reads an expression: five whitespace-separated fields.
pub fn parse_schedule(expression: &str) -> (r: Result<CronSchedule, CronError>)
    ensures
        match r {
            Ok(s) => s.wf() && schedule_of(expression@) == Ok::<CronSpec, CronReason>(s.spec()),
            Err(e) => schedule_of(expression@) == Err::<CronSpec, CronReason>(e@),
        },
{
    proof {
        reveal_strlit("*");
    }
    let parts = split_whitespace(expression);
    let ghost pv = parts@.map_values(|p: String| p@);
    if parts.len() != 5 {
        return Err(CronError::FieldCount);
    }
    assert(pv[0] == parts@[0]@ && pv[1] == parts@[1]@ && pv[2] == parts@[2]@ && pv[3]
        == parts@[3]@ && pv[4] == parts@[4]@);
    let minutes = match parse_field(parts[0].as_str(), 0, 59, false) {
        Ok(f) => f,
        Err(e) => {
            return Err(e);
        },
    };
    let hours = match parse_field(parts[1].as_str(), 0, 23, false) {
        Ok(f) => f,
        Err(e) => {
            return Err(e);
        },
    };
    let days = match parse_field(parts[2].as_str(), 1, 31, false) {
        Ok(f) => f,
        Err(e) => {
            return Err(e);
        },
    };
    let months = match parse_field(parts[3].as_str(), 1, 12, false) {
        Ok(f) => f,
        Err(e) => {
            return Err(e);
        },
    };
    let weekdays = match parse_field(parts[4].as_str(), 0, 7, true) {
        Ok(f) => f,
        Err(e) => {
            return Err(e);
        },
    };
    let day_star = str_eq(parts[2].as_str(), "*");
    let weekday_star = str_eq(parts[4].as_str(), "*");
    Ok(CronSchedule { minutes, hours, days, months, weekdays, day_star, weekday_star })
}

/// How many minutes past the first candidate the search looks: 366 × 5
/// days.
pub const SEARCH_MINUTES: u32 = 2_635_200;

/// `clock` gives each offset one minute: the same one every time.
pub open spec fn steady_clock<F: Fn(u32) -> LocalMinute>(clock: F) -> bool {
    &&& forall|j: u32| call_requires(clock, (j,))
    &&& forall|j: u32, a: LocalMinute, b: LocalMinute|
        #[trigger] call_ensures(clock, (j,), a) && #[trigger] call_ensures(clock, (j,), b) ==> a == b
}

/// No minute `clock` gives for an offset below `k` matches.
pub open spec fn none_before<F: Fn(u32) -> LocalMinute>(s: CronSpec, clock: F, k: int) -> bool {
    forall|j: u32, u: LocalMinute|
        j < k && #[trigger] call_ensures(clock, (j,), u) ==> !minute_matches(s, u)
}

/// The first minute the expression matches, searching forward from the
/// minute after the current one. `clock(j)` is the local wall-clock minute
/// that begins `j + 1` minutes after the current minute began (so the
/// search follows the local clock through its changes); offsets up to
/// 366 × 5 days are looked at. The result is that offset and its minute.
pub fn cron_next_run<F: Fn(u32) -> LocalMinute>(expression: &str, clock: F) -> (r: Result<
    (u32, LocalMinute),
    CronError,
>)
    requires
        steady_clock(clock),
    ensures
        match r {
            Ok((k, t)) => schedule_of(expression@) matches Ok(s) && k <= SEARCH_MINUTES
                && call_ensures(clock, (k,), t) && minute_matches(s, t) && none_before(s, clock, k as int),
            Err(e) => match schedule_of(expression@) {
                Err(p) => e@ == p,
                Ok(s) => e@ == CronReason::NotFound && none_before(s, clock, SEARCH_MINUTES + 1),
            },
        },
{
    let schedule = match parse_schedule(expression) {
        Ok(s) => s,
        Err(e) => {
            return Err(e);
        },
    };
    let ghost s = schedule.spec();
    let mut k: u32 = 0;
    while k <= SEARCH_MINUTES
        invariant
            schedule.wf(),
            s == schedule.spec(),
            schedule_of(expression@) == Ok::<CronSpec, CronReason>(s),
            steady_clock(clock),
            k <= SEARCH_MINUTES + 1,
            none_before(s, clock, k as int),
        decreases SEARCH_MINUTES + 1 - k,
    {
        let current = clock(k);
        if schedule.matches(&current) {
            return Ok((k, current));
        }
        assert(none_before(s, clock, k + 1)) by {
            assert forall|j: u32, u: LocalMinute|
                j < k + 1 && #[trigger] call_ensures(clock, (j,), u) implies !minute_matches(s, u) by {
                if j == k {
                    assert(call_ensures(clock, (k,), current));
                    assert(u == current);
                }
            }
        }
        k = k + 1;
    }
    Err(CronError::NotFound)
}

} // verus!
