//! When the daily digest runs.

use crate::text;
use vstd::prelude::*;
use vstd::string::*;

verus! {

/// Seconds between the end of one run and the wait for the next.
pub const PAUSE_SECS: u64 = 60;

/// The time zone that stands in for one that is not known.
pub const FALLBACK_ZONE: &'static str = "UTC";

/// The minutes of a day.
pub const DAY_MINUTES: u32 = 1440;

/// Why a time of day cannot be read.
#[derive(Debug, Clone, Copy, PartialEq, Eq, Structural)]
pub enum CronError {
    /// It is not two parts around a colon.
    Format,
    /// A part is empty.
    Empty,
    /// A part is no number.
    Digit,
    /// A part is too large a number.
    TooLarge,
    /// The hour or the minute is not one of a day.
    Range,
}

impl CronError {
    /// What is reported of the error.
    pub open spec fn report(self) -> Seq<char> {
        match self {
            CronError::Format => "Invalid time format, expected HH:MM"@,
            CronError::Empty => "cannot parse integer from empty string"@,
            CronError::Digit => "invalid digit found in string"@,
            CronError::TooLarge => "number too large to fit in target type"@,
            CronError::Range => "Invalid time values"@,
        }
    }

    pub fn message(self) -> (r: String)
        ensures
            r@ == self.report(),
    {
        match self {
            CronError::Format => "Invalid time format, expected HH:MM".to_owned(),
            CronError::Empty => "cannot parse integer from empty string".to_owned(),
            CronError::Digit => "invalid digit found in string".to_owned(),
            CronError::TooLarge => "number too large to fit in target type".to_owned(),
            CronError::Range => "Invalid time values".to_owned(),
        }
    }
}

/// The number that a part of a time of day is. It is read from the left: digits that are too
/// large a number are an error before anything behind them is.
pub open spec fn part_value(part: Seq<char>) -> Result<int, CronError> {
    let digits = text::after_plus(part);
    if part.len() == 0 {
        Err(CronError::Empty)
    } else if text::digits_value(text::leading_digits(digits)) > u32::MAX {
        Err(CronError::TooLarge)
    } else if text::all_digits(digits) {
        Ok(text::digits_value(digits) as int)
    } else {
        Err(CronError::Digit)
    }
}

/// The hour and the minute that a time of day `HH:MM` gives.
pub open spec fn time_of_day(time: Seq<char>) -> Result<(int, int), CronError> {
    let parts = text::split_on(time, ':');
    if parts.len() != 2 {
        Err(CronError::Format)
    } else {
        match (part_value(parts[0]), part_value(parts[1])) {
            (Err(e), _) => Err(e),
            (_, Err(e)) => Err(e),
            (Ok(hour), Ok(minute)) => if hour > 23 || minute > 59 {
                Err(CronError::Range)
            } else {
                Ok((hour, minute))
            },
        }
    }
}

fn parse_part(part: &str) -> (r: Result<u32, CronError>)
    ensures
        match r {
            Ok(n) => part_value(part@) == Ok::<int, CronError>(n as int),
            Err(e) => part_value(part@) == Err::<int, CronError>(e),
        },
{
    if part.is_empty() {
        return Err(CronError::Empty);
    }
    if text::leading_digits_exceed(part, 0xffff_ffff) {
        return Err(CronError::TooLarge);
    }
    proof {
        if text::all_digits(text::after_plus(part@)) {
            text::lemma_all_digits_lead(text::after_plus(part@));
        }
    }
    match text::parse_unsigned(part, 0xffff_ffff) {
        Some(n) => Ok(n as u32),
        None => Err(CronError::Digit),
    }
}

/// The hour and the minute that a time of day `HH:MM` gives.
pub fn parse_cron_time(time_str: &str) -> (r: Result<(u32, u32), CronError>)
    ensures
        match r {
            Ok((hour, minute)) => time_of_day(time_str@) == Ok::<(int, int), CronError>(
                (hour as int, minute as int),
            ) && hour <= 23 && minute <= 59,
            Err(e) => time_of_day(time_str@) == Err::<(int, int), CronError>(e),
        },
{
    let parts = text::split(time_str, ':');
    if parts.len() != 2 {
        return Err(CronError::Format);
    }
    let hour = match parse_part(parts[0].as_str()) {
        Ok(n) => n,
        Err(e) => {
            return Err(e);
        },
    };
    let minute = match parse_part(parts[1].as_str()) {
        Ok(n) => n,
        Err(e) => {
            return Err(e);
        },
    };
    if hour > 23 || minute > 59 {
        return Err(CronError::Range);
    }
    Ok((hour, minute))
}

/// Whether the time zone database has a zone of this name.
pub uninterp spec fn known_zone(name: Seq<char>) -> bool;

/// `chrono_tz::Tz::from_str`: whether it finds a zone of this name in the database that the
/// crate carries. It finds `UTC`.
#[verifier::external_body]
fn zone_is_known(name: &str) -> (r: bool)
    ensures
        r == known_zone(name@),
        name@ == FALLBACK_ZONE@ ==> r,
{
    <chrono_tz::Tz as std::str::FromStr>::from_str(name).is_ok()
}

/// The date that it is in a time zone at an instant (Unix seconds), as a day's number. There
/// is none in an unknown zone, nor where the calendar ends.
pub uninterp spec fn local_date(zone: Seq<char>, instant: int) -> Option<int>;

/// `chrono::TimeZone::offset_from_utc_datetime` for a zone of `chrono_tz`, added to the
/// instant by `NaiveDateTime::checked_add_offset`: the date in the zone at the instant, by
/// its number (`num_days_from_ce`). There is none where the name is of no zone, or where the
/// instant or its local time is outside of what `chrono` represents.
#[verifier::external_body]
fn date_in_zone(zone: &str, instant: i64) -> (r: Option<i32>)
    ensures
        match r {
            Some(day) => local_date(zone@, instant as int) == Some(day as int),
            None => local_date(zone@, instant as int) is None,
        },
{
    let tz = <chrono_tz::Tz as std::str::FromStr>::from_str(zone).ok()?;
    let utc = chrono::DateTime::from_timestamp(instant, 0)?.naive_utc();
    let offset = chrono::TimeZone::offset_from_utc_datetime(&tz, &utc);
    let local = utc.checked_add_offset(chrono::Offset::fix(&offset))?;
    Some(chrono::Datelike::num_days_from_ce(&local.date()))
}

/// The instant (Unix seconds) at which it is `hour:minute` in a time zone on a day, given by
/// its number. There is none where the clocks skip that time.
pub uninterp spec fn instant_at(zone: Seq<char>, day: int, hour: int, minute: int) -> Option<int>;

/// `chrono::TimeZone::from_local_datetime` for a zone of `chrono_tz`, with `earliest`: the
/// instant of a local time, the first of the two where the clocks pass it twice.
#[verifier::external_body]
fn instant_in_zone(zone: &str, day: i32, hour: u32, minute: u32) -> (r: Option<i64>)
    ensures
        match r {
            Some(t) => instant_at(zone@, day as int, hour as int, minute as int) == Some(t as int),
            None => instant_at(zone@, day as int, hour as int, minute as int) is None,
        },
{
    let tz = <chrono_tz::Tz as std::str::FromStr>::from_str(zone).ok()?;
    let date = chrono::NaiveDate::from_num_days_from_ce_opt(day)?;
    let local = date.and_hms_opt(hour, minute, 0)?;
    Some(chrono::TimeZone::from_local_datetime(&tz, &local).earliest()?.timestamp())
}

/// The time zone that a name stands for: its own, or else UTC.
pub open spec fn resolved_zone(name: Seq<char>) -> Seq<char> {
    if known_zone(name) {
        name
    } else {
        FALLBACK_ZONE@
    }
}

/// The time zone that a name stands for: its own, or else UTC.
pub fn resolve_timezone(name: &str) -> (r: String)
    ensures
        r@ == resolved_zone(name@),
        known_zone(r@),
{
    if zone_is_known(name) {
        name.to_owned()
    } else {
        let known = zone_is_known(FALLBACK_ZONE);
        assert(known);
        FALLBACK_ZONE.to_owned()
    }
}

/// The first of the candidates that lies after `now`.
pub open spec fn first_after(now: int, candidates: Seq<Option<int>>) -> Option<int>
    decreases candidates.len(),
{
    if candidates.len() == 0 {
        None
    } else {
        match candidates[0] {
            Some(t) if t > now => Some(t),
            _ => first_after(now, candidates.drop_first()),
        }
    }
}

pub open spec fn instant_of(o: Option<i64>) -> Option<int> {
    match o {
        Some(t) => Some(t as int),
        None => None,
    }
}

/// The next run: the first of the scheduled instants of today, tomorrow and the day after
/// that lies after `now`. A date that the clocks skip has no instant.
pub fn next_run(
    now: i64,
    today: Option<i64>,
    tomorrow: Option<i64>,
    day_after: Option<i64>,
) -> (r: Option<i64>)
    ensures
        instant_of(r) == first_after(
            now as int,
            seq![instant_of(today), instant_of(tomorrow), instant_of(day_after)],
        ),
{
    proof {
        reveal_with_fuel(first_after, 4);
        let all = seq![instant_of(today), instant_of(tomorrow), instant_of(day_after)];
        assert(all.drop_first() =~= seq![instant_of(tomorrow), instant_of(day_after)]);
        assert(all.drop_first().drop_first() =~= seq![instant_of(day_after)]);
        assert(all.drop_first().drop_first().drop_first() =~= Seq::<Option<int>>::empty());
    }
    if let Some(t) = today {
        if t > now {
            return Some(t);
        }
    }
    if let Some(t) = tomorrow {
        if t > now {
            return Some(t);
        }
    }
    if let Some(t) = day_after {
        if t > now {
            return Some(t);
        }
    }
    None
}

/// The whole seconds from `now` and `nanos` billionths of a second until `next`.
pub open spec fn seconds_until(next: int, now: int, nanos: int) -> int {
    let whole = if nanos > 0 {
        next - now - 1
    } else {
        next - now
    };
    if whole > 0 {
        whole
    } else {
        0
    }
}

/// The whole seconds from `now` and `nanos` billionths of a second until `next`.
pub fn wait_seconds(next: i64, now: i64, nanos: u32) -> (r: u64)
    ensures
        r == seconds_until(next as int, now as int, nanos as int),
{
    let whole: i128 = if nanos > 0 {
        next as i128 - now as i128 - 1
    } else {
        next as i128 - now as i128
    };
    if whole > 0 {
        whole as u64
    } else {
        0
    }
}

/// The next run of the digest.
#[derive(Debug, Clone, Copy)]
pub struct NextRun {
    /// The instant of the run (Unix seconds).
    pub at: i64,
    /// The seconds to wait for it.
    pub wait_secs: u64,
}

/// Why no next run can be given.
#[derive(Debug, Clone, Copy, PartialEq, Eq, Structural)]
pub enum ScheduleError {
    /// The time of day cannot be read.
    Time(CronError),
    /// No instant of the coming days can be given.
    NoInstant,
}

impl ScheduleError {
    pub open spec fn report(self) -> Seq<char> {
        match self {
            ScheduleError::Time(e) => e.report(),
            ScheduleError::NoInstant => "No instant for the scheduled time"@,
        }
    }

    pub fn message(self) -> (r: String)
        ensures
            r@ == self.report(),
    {
        match self {
            ScheduleError::Time(e) => e.message(),
            ScheduleError::NoInstant => "No instant for the scheduled time".to_owned(),
        }
    }
}

/// The first instant on a day, as far as days are numbered, at which the clocks show a full
/// minute of the day that is `from` or later.
pub open spec fn first_minute(zone: Seq<char>, day: int, from: int) -> Option<int>
    decreases DAY_MINUTES - from,
{
    if day > i32::MAX || from < 0 || from >= DAY_MINUTES {
        None
    } else {
        match instant_at(zone, day, from / 60, from % 60) {
            Some(t) => Some(t),
            None => first_minute(zone, day, from + 1),
        }
    }
}

/// The instant of a day's run: that of the scheduled time, or, where the clocks skip it, the
/// first full minute after the gap, be it on the next day. A date that the clocks skip as a
/// whole has no run.
pub open spec fn scheduled_on(zone: Seq<char>, day: int, time: (int, int)) -> Option<int> {
    match first_minute(zone, day, time.0 * 60 + time.1) {
        Some(t) => Some(t),
        None => if first_minute(zone, day, 0) is Some {
            first_minute(zone, day + 1, 0)
        } else {
            None
        },
    }
}

fn find_minute(zone: &str, day: i32, from: u32) -> (r: Option<i64>)
    ensures
        instant_of(r) == first_minute(zone@, day as int, from as int),
{
    let mut at: u32 = from;
    while at < DAY_MINUTES
        invariant
            first_minute(zone@, day as int, at as int) == first_minute(
                zone@,
                day as int,
                from as int,
            ),
        decreases DAY_MINUTES - at,
    {
        if let Some(t) = instant_in_zone(zone, day, at / 60, at % 60) {
            return Some(t);
        }
        at = at + 1;
    }
    None
}

fn find_scheduled(zone: &str, day: i32, hour: u32, minute: u32) -> (r: Option<i64>)
    requires
        hour <= 23,
        minute <= 59,
    ensures
        instant_of(r) == scheduled_on(zone@, day as int, (hour as int, minute as int)),
{
    if let Some(t) = find_minute(zone, day, hour * 60 + minute) {
        return Some(t);
    }
    if find_minute(zone, day, 0).is_none() {
        return None;
    }
    match day.checked_add(1) {
        Some(next) => find_minute(zone, next, 0),
        None => None,
    }
}

/// The instant of the next run: the first one after `now` among those of today's run,
/// tomorrow's and that of the day after, where today is the date in `zone`.
pub open spec fn next_instant(zone: Seq<char>, time: (int, int), now: int) -> Option<int> {
    match local_date(zone, now) {
        Some(today) => first_after(
            now,
            seq![
                scheduled_on(zone, today, time),
                scheduled_on(zone, today + 1, time),
                scheduled_on(zone, today + 2, time),
            ],
        ),
        None => None,
    }
}

/// The next run of a digest that is scheduled at `time` in the time zone `timezone`, seen
/// from `now` (Unix seconds) and `nanos` billionths of a second.
pub fn plan_next_run(time: &str, timezone: &str, now: i64, nanos: u32) -> (r: Result<
    NextRun,
    ScheduleError,
>)
    ensures
        match (time_of_day(time@), r) {
            (Err(e), r) => r == Err::<NextRun, ScheduleError>(ScheduleError::Time(e)),
            (Ok(at), Ok(run)) => {
                &&& next_instant(resolved_zone(timezone@), at, now as int) == Some(run.at as int)
                &&& run.wait_secs == seconds_until(run.at as int, now as int, nanos as int)
            },
            (Ok(at), Err(e)) => {
                &&& e == ScheduleError::NoInstant
                &&& next_instant(resolved_zone(timezone@), at, now as int) is None
            },
        },
{
    let (hour, minute) = match parse_cron_time(time) {
        Ok(at) => at,
        Err(e) => {
            return Err(ScheduleError::Time(e));
        },
    };
    let zone = resolve_timezone(timezone);
    let today: i32 = match date_in_zone(zone.as_str(), now) {
        Some(day) => day,
        None => {
            return Err(ScheduleError::NoInstant);
        },
    };
    let first = find_scheduled(zone.as_str(), today, hour, minute);
    let second = match today.checked_add(1) {
        Some(day) => find_scheduled(zone.as_str(), day, hour, minute),
        None => None,
    };
    let third = match today.checked_add(2) {
        Some(day) => find_scheduled(zone.as_str(), day, hour, minute),
        None => None,
    };
    match next_run(now, first, second, third) {
        Some(at) => Ok(NextRun { at, wait_secs: wait_seconds(at, now, nanos) }),
        None => Err(ScheduleError::NoInstant),
    }
}

/// The next run lies ahead, and no candidate before it in the list does.
pub proof fn law_next_run_is_the_first_ahead(now: int, candidates: Seq<Option<int>>)
    ensures
        match first_after(now, candidates) {
            Some(t) => t > now && exists|i: int|
                {
                    &&& 0 <= i < candidates.len()
                    &&& #[trigger] candidates[i] == Some(t)
                    &&& forall|j: int|
                        0 <= j < i ==> !((#[trigger] candidates[j]) matches Some(u) && u > now)
                },
            None => forall|j: int|
                0 <= j < candidates.len() ==> !((#[trigger] candidates[j]) matches Some(u) && u
                    > now),
        },
    decreases candidates.len(),
{
    if candidates.len() > 0 {
        let rest = candidates.drop_first();
        law_next_run_is_the_first_ahead(now, rest);
        let ahead = candidates[0] matches Some(u) && u > now;
        if !ahead {
            match first_after(now, rest) {
                Some(t) => {
                    let i = choose|i: int|
                        {
                            &&& 0 <= i < rest.len()
                            &&& #[trigger] rest[i] == Some(t)
                            &&& forall|j: int|
                                0 <= j < i ==> !((#[trigger] rest[j]) matches Some(u) && u > now)
                        };
                    assert(candidates[i + 1] == Some(t));
                    assert forall|j: int| 0 <= j < i + 1 implies !((
                    #[trigger] candidates[j]) matches Some(u) && u > now) by {
                        if j > 0 {
                            assert(rest[j - 1] == candidates[j]);
                        }
                    }
                },
                None => {
                    assert forall|j: int| 0 <= j < candidates.len() implies !((
                    #[trigger] candidates[j]) matches Some(u) && u > now) by {
                        if j > 0 {
                            assert(rest[j - 1] == candidates[j]);
                        }
                    }
                },
            }
        }
    }
}

/// A run is not started twice: once the wait and the pause after the run are over, its
/// instant is in the past, so no later plan gives it again.
pub proof fn law_each_run_starts_once(
    at: int,
    now: int,
    nanos: int,
    later: int,
    candidates: Seq<Option<int>>,
)
    requires
        now < at,
        0 <= nanos < 1_000_000_000,
        later >= now + seconds_until(at, now, nanos) + PAUSE_SECS,
    ensures
        later > at,
        first_after(later, candidates) != Some(at),
{
    law_next_run_is_the_first_ahead(later, candidates);
}

/// There is one run a day: a plan that is made after the run of a day gives the run of
/// another day, today's, tomorrow's or that of the day after.
pub proof fn law_one_run_per_day(
    zone: Seq<char>,
    time: (int, int),
    day: int,
    at: int,
    later: int,
)
    requires
        scheduled_on(zone, day, time) == Some(at),
        later >= at,
    ensures
        next_instant(zone, time, later) matches Some(next) ==> next > later && exists|d: int|
            {
                &&& d != day
                &&& local_date(zone, later)->0 <= d <= local_date(zone, later)->0 + 2
                &&& #[trigger] scheduled_on(zone, d, time) == Some(next)
            },
{
    if let Some(today) = local_date(zone, later) {
        let candidates = seq![
            scheduled_on(zone, today, time),
            scheduled_on(zone, today + 1, time),
            scheduled_on(zone, today + 2, time),
        ];
        law_next_run_is_the_first_ahead(later, candidates);
        if let Some(next) = first_after(later, candidates) {
            let i = choose|i: int|
                0 <= i < candidates.len() && #[trigger] candidates[i] == Some(next);
            assert(scheduled_on(zone, today + i, time) == Some(next));
        }
    }
}

proof fn lemma_first_minute(zone: Seq<char>, day: int, from: int, minute: int)
    requires
        day <= i32::MAX,
        0 <= from <= minute < DAY_MINUTES,
        instant_at(zone, day, minute / 60, minute % 60) is Some,
        forall|m: int|
            from <= m < minute ==> (#[trigger] instant_at(zone, day, m / 60, m % 60)) is None,
    ensures
        first_minute(zone, day, from) == instant_at(zone, day, minute / 60, minute % 60),
    decreases minute - from,
{
    if from < minute {
        assert(instant_at(zone, day, from / 60, from % 60) is None);
        lemma_first_minute(zone, day, from + 1, minute);
    }
}

/// A day's run is at the scheduled time, wherever the clocks show it.
pub proof fn law_run_is_at_the_scheduled_time(zone: Seq<char>, day: int, time: (int, int))
    requires
        day <= i32::MAX,
        0 <= time.0 <= 23,
        0 <= time.1 <= 59,
        instant_at(zone, day, time.0, time.1) is Some,
    ensures
        scheduled_on(zone, day, time) == instant_at(zone, day, time.0, time.1),
{
    let from = time.0 * 60 + time.1;
    assert(from / 60 == time.0 && from % 60 == time.1);
    lemma_first_minute(zone, day, from, from);
}

/// A day whose clocks skip the scheduled time has its run all the same: at the first minute
/// after the gap.
pub proof fn law_skipped_time_runs_after_the_gap(
    zone: Seq<char>,
    day: int,
    time: (int, int),
    minute: int,
)
    requires
        day <= i32::MAX,
        0 <= time.0 <= 23,
        0 <= time.1 <= 59,
        time.0 * 60 + time.1 <= minute < DAY_MINUTES,
        instant_at(zone, day, minute / 60, minute % 60) is Some,
        forall|m: int|
            time.0 * 60 + time.1 <= m < minute ==> (#[trigger] instant_at(
                zone,
                day,
                m / 60,
                m % 60,
            )) is None,
    ensures
        scheduled_on(zone, day, time) == instant_at(zone, day, minute / 60, minute % 60),
{
    lemma_first_minute(zone, day, time.0 * 60 + time.1, minute);
}

/// The wait ends at the scheduled second: not after it, and less than a second before it.
pub proof fn law_wait_ends_on_time(at: int, now: int, nanos: int)
    requires
        now < at,
        0 <= nanos < 1_000_000_000,
    ensures
        ({
            let end = (now + seconds_until(at, now, nanos)) * 1_000_000_000 + nanos;
            at * 1_000_000_000 - 1_000_000_000 < end <= at * 1_000_000_000
        }),
{
}

proof fn lemma_zeros_in_front(zeros: Seq<char>, n: nat)
    requires
        forall|i: int| 0 <= i < zeros.len() ==> #[trigger] zeros[i] == '0',
    ensures
        text::all_digits(zeros + text::decimal(n)),
        text::digits_value(zeros + text::decimal(n)) == n,
{
    text::law_decimal_reads_back(n);
    let d = text::decimal(n);
    lemma_digits_behind_zeros(zeros, d);
    let s = zeros + d;
    assert forall|i: int| 0 <= i < s.len() implies text::digit(#[trigger] s[i]) by {
        if i < zeros.len() {
            assert(zeros[i] == '0');
        } else {
            assert(text::digit(d[i - zeros.len()]));
        }
    }
}

proof fn lemma_digits_behind_zeros(zeros: Seq<char>, d: Seq<char>)
    requires
        forall|i: int| 0 <= i < zeros.len() ==> #[trigger] zeros[i] == '0',
    ensures
        text::digits_value(zeros + d) == text::digits_value(d),
    decreases zeros.len() + d.len(),
{
    let s = zeros + d;
    if d.len() > 0 {
        assert(s.drop_last() =~= zeros + d.drop_last());
        lemma_digits_behind_zeros(zeros, d.drop_last());
    } else if zeros.len() > 0 {
        let fewer = zeros.drop_last();
        assert(s =~= zeros);
        assert(s.drop_last() =~= fewer + d);
        assert forall|i: int| 0 <= i < fewer.len() implies #[trigger] fewer[i] == '0' by {
            assert(zeros[i] == '0');
        }
        lemma_digits_behind_zeros(fewer, d);
        assert(zeros[zeros.len() - 1] == '0');
    }
}

proof fn lemma_part_of_number(zeros: Seq<char>, n: nat)
    requires
        forall|i: int| 0 <= i < zeros.len() ==> #[trigger] zeros[i] == '0',
    ensures
        !(zeros + text::decimal(n)).contains(':'),
        n <= u32::MAX ==> part_value(zeros + text::decimal(n)) == Ok::<int, CronError>(n as int),
        n > u32::MAX ==> part_value(zeros + text::decimal(n)) == Err::<int, CronError>(
            CronError::TooLarge,
        ),
{
    let s = zeros + text::decimal(n);
    lemma_zeros_in_front(zeros, n);
    text::law_decimal_reads_back(n);
    text::lemma_all_digits_lead(s);
    assert(text::digit(s[0]));
    assert(text::after_plus(s) == s);
    if s.contains(':') {
        let i = choose|i: int| 0 <= i < s.len() && s[i] == ':';
        assert(text::digit(s[i]));
    }
}

/// A time of day is read as its hour and its minute, with or without zeros in front: just
/// the hours up to 23 and the minutes up to 59 are those of a day.
pub proof fn law_time_of_day_reads_back(a: Seq<char>, hour: nat, b: Seq<char>, minute: nat)
    requires
        forall|i: int| 0 <= i < a.len() ==> #[trigger] a[i] == '0',
        forall|i: int| 0 <= i < b.len() ==> #[trigger] b[i] == '0',
    ensures
        ({
            let r = time_of_day(a + text::decimal(hour) + seq![':'] + b + text::decimal(minute));
            &&& hour <= 23 && minute <= 59 ==> r == Ok::<(int, int), CronError>(
                (hour as int, minute as int),
            )
            &&& hour > 23 || minute > 59 ==> r is Err
            &&& (hour > 23 || minute > 59) && hour <= u32::MAX && minute <= u32::MAX ==> r == Err::<
                (int, int),
                CronError,
            >(CronError::Range)
            &&& hour > u32::MAX || minute > u32::MAX ==> r == Err::<(int, int), CronError>(
                CronError::TooLarge,
            )
        }),
{
    let x = a + text::decimal(hour);
    let y = b + text::decimal(minute);
    lemma_part_of_number(a, hour);
    lemma_part_of_number(b, minute);
    let s = a + text::decimal(hour) + seq![':'] + b + text::decimal(minute);
    assert(s =~= x + seq![':'] + y);
    text::law_split_at_separator(x, ':', y);
    text::law_split_without_separator(x, ':');
    text::law_split_without_separator(y, ':');
    assert(text::split_on(s, ':') =~= seq![x, y]);
}

/// A time without a colon, or with more than one, is of another form.
pub proof fn law_time_of_day_has_one_colon(a: Seq<char>, b: Seq<char>, c: Seq<char>)
    ensures
        !a.contains(':') ==> time_of_day(a) == Err::<(int, int), CronError>(CronError::Format),
        time_of_day(a + seq![':'] + b + seq![':'] + c) == Err::<(int, int), CronError>(
            CronError::Format,
        ),
{
    if !a.contains(':') {
        text::law_split_without_separator(a, ':');
    }
    let front = a + seq![':'] + b;
    text::law_split_at_separator(a, ':', b);
    text::law_split_at_separator(front, ':', c);
    text::lemma_split_nonempty(a, ':');
    text::lemma_split_nonempty(b, ':');
    text::lemma_split_nonempty(c, ':');
}

/// A part of a time that is empty, or holds anything but digits, is told apart.
pub proof fn law_time_parts_are_digits(a: Seq<char>, b: Seq<char>, i: int)
    requires
        !a.contains(':'),
        !b.contains(':'),
    ensures
        a.len() == 0 ==> time_of_day(a + seq![':'] + b) == Err::<(int, int), CronError>(
            CronError::Empty,
        ),
        0 <= i < a.len() && !text::digit(a[i]) && (i > 0 || a[0] != '+') && a.len() <= 9
            ==> time_of_day(a + seq![':'] + b) == Err::<(int, int), CronError>(CronError::Digit),
{
    lemma_two_parts(a, b);
    if 0 <= i < a.len() && !text::digit(a[i]) && (i > 0 || a[0] != '+') && a.len() <= 9 {
        lemma_odd_part(a, i);
    }
}

/// Ten to the power of `n`.
pub open spec fn ten_to(n: nat) -> nat
    decreases n,
{
    if n == 0 {
        1
    } else {
        10 * ten_to((n - 1) as nat)
    }
}

proof fn lemma_few_digits(s: Seq<char>)
    requires
        forall|i: int| 0 <= i < s.len() ==> text::digit(#[trigger] s[i]),
    ensures
        text::digits_value(s) < ten_to(s.len()),
    decreases s.len(),
{
    if s.len() > 0 {
        let shorter = s.drop_last();
        assert forall|i: int| 0 <= i < shorter.len() implies text::digit(#[trigger] shorter[i]) by {
            assert(text::digit(s[i]));
        }
        lemma_few_digits(shorter);
        assert(text::digit(s[s.len() - 1]));
    }
}

proof fn lemma_leading_digits_are_few(s: Seq<char>)
    ensures
        text::leading_digits(s).len() <= s.len(),
        forall|i: int|
            0 <= i < text::leading_digits(s).len() ==> text::digit(
                #[trigger] text::leading_digits(s)[i],
            ),
    decreases s.len(),
{
    if s.len() > 0 && text::digit(s[0]) {
        let rest = text::leading_digits(s.drop_first());
        lemma_leading_digits_are_few(s.drop_first());
        let all = text::leading_digits(s);
        assert forall|i: int| 0 <= i < all.len() implies text::digit(#[trigger] all[i]) by {
            if i > 0 {
                assert(all[i] == rest[i - 1]);
            }
        }
    }
}

proof fn lemma_ten_to_grows(n: nat, m: nat)
    requires
        n <= m,
    ensures
        ten_to(n) <= ten_to(m),
    decreases m,
{
    if n < m {
        lemma_ten_to_grows(n, (m - 1) as nat);
    }
}

/// The next run is today's while that lies ahead, and else tomorrow's; whichever it is, it
/// is not past.
pub proof fn law_next_run_is_todays_or_tomorrows(
    zone: Seq<char>,
    time: (int, int),
    now: int,
    today: int,
)
    requires
        local_date(zone, now) == Some(today),
    ensures
        scheduled_on(zone, today, time) matches Some(t) ==> t > now ==> next_instant(
            zone,
            time,
            now,
        ) == Some(t),
        !(scheduled_on(zone, today, time) matches Some(t) && t > now) && (scheduled_on(
            zone,
            today + 1,
            time,
        ) matches Some(u) && u > now) ==> next_instant(zone, time, now) == scheduled_on(
            zone,
            today + 1,
            time,
        ),
        next_instant(zone, time, now) matches Some(next) ==> next > now,
{
    reveal_with_fuel(first_after, 4);
    let all = seq![
        scheduled_on(zone, today, time),
        scheduled_on(zone, today + 1, time),
        scheduled_on(zone, today + 2, time),
    ];
    law_next_run_is_the_first_ahead(now, all);
    assert(all.drop_first() =~= seq![
        scheduled_on(zone, today + 1, time),
        scheduled_on(zone, today + 2, time),
    ]);
}

/// A time zone that is known stands for itself, and any other name for UTC.
pub proof fn law_unknown_zone_is_utc(name: Seq<char>)
    ensures
        known_zone(name) ==> resolved_zone(name) == name,
        !known_zone(name) ==> resolved_zone(name) == "UTC"@,
{
}

/// There is nothing to wait for once the time has come.
pub proof fn law_no_wait_for_the_past(at: int, now: int, nanos: int)
    requires
        at <= now,
        0 <= nanos,
    ensures
        seconds_until(at, now, nanos) == 0,
{
}

/// What is reported says which error it is.
pub proof fn law_schedule_errors_are_told_apart(e: CronError)
    ensures
        CronError::Format.report() == "Invalid time format, expected HH:MM"@,
        CronError::Empty.report() == "cannot parse integer from empty string"@,
        CronError::Digit.report() == "invalid digit found in string"@,
        CronError::TooLarge.report() == "number too large to fit in target type"@,
        CronError::Range.report() == "Invalid time values"@,
        ScheduleError::Time(e).report() == e.report(),
{
}

proof fn lemma_no_minute(zone: Seq<char>, day: int, from: int)
    requires
        0 <= from,
        forall|m: int|
            from <= m < DAY_MINUTES ==> (#[trigger] instant_at(zone, day, m / 60, m % 60)) is None,
    ensures
        first_minute(zone, day, from) is None,
    decreases DAY_MINUTES - from,
{
    if from < DAY_MINUTES {
        assert(instant_at(zone, day, from / 60, from % 60) is None);
        lemma_no_minute(zone, day, from + 1);
    }
}

/// Where the clocks skip the rest of a day from the scheduled time on, the run is at the
/// first minute of the next day; a date that they skip as a whole has no run.
pub proof fn law_skipped_evening_runs_on_the_next_day(
    zone: Seq<char>,
    day: int,
    time: (int, int),
    early: int,
    minute: int,
)
    requires
        day < i32::MAX,
        0 <= time.0 <= 23,
        0 <= time.1 <= 59,
        0 <= minute < DAY_MINUTES,
        forall|m: int|
            time.0 * 60 + time.1 <= m < DAY_MINUTES ==> (#[trigger] instant_at(
                zone,
                day,
                m / 60,
                m % 60,
            )) is None,
        instant_at(zone, day + 1, minute / 60, minute % 60) is Some,
        forall|m: int|
            0 <= m < minute ==> (#[trigger] instant_at(zone, day + 1, m / 60, m % 60)) is None,
    ensures
        0 <= early < DAY_MINUTES && instant_at(zone, day, early / 60, early % 60) is Some
            ==> scheduled_on(zone, day, time) == instant_at(
            zone,
            day + 1,
            minute / 60,
            minute % 60,
        ),
        (forall|m: int|
            0 <= m < DAY_MINUTES ==> (#[trigger] instant_at(zone, day, m / 60, m % 60)) is None)
            ==> scheduled_on(zone, day, time) is None,
{
    lemma_no_minute(zone, day, time.0 * 60 + time.1);
    lemma_first_minute(zone, day + 1, 0, minute);
    if forall|m: int|
        0 <= m < DAY_MINUTES ==> (#[trigger] instant_at(zone, day, m / 60, m % 60)) is None {
        lemma_no_minute(zone, day, 0);
    }
    if 0 <= early < DAY_MINUTES && instant_at(zone, day, early / 60, early % 60) is Some {
        lemma_some_minute(zone, day, 0, early);
    }
}

proof fn lemma_some_minute(zone: Seq<char>, day: int, from: int, minute: int)
    requires
        day <= i32::MAX,
        0 <= from <= minute < DAY_MINUTES,
        instant_at(zone, day, minute / 60, minute % 60) is Some,
    ensures
        first_minute(zone, day, from) is Some,
    decreases minute - from,
{
    if from < minute && instant_at(zone, day, from / 60, from % 60) is None {
        lemma_some_minute(zone, day, from + 1, minute);
    }
}

/// One plus sign may stand in front of a part of a time; a plus sign alone is no number. Of
/// two parts that cannot be read the first one is reported.
pub proof fn law_time_parts_may_have_a_plus(hour: nat, minute: nat, b: Seq<char>)
    requires
        hour <= 23,
        minute <= 59,
        !b.contains(':'),
    ensures
        time_of_day(
            (seq!['+'] + text::decimal(hour)) + seq![':'] + (seq!['+'] + text::decimal(minute)),
        ) == Ok::<(int, int), CronError>((hour as int, minute as int)),
        time_of_day(seq!['+'] + seq![':'] + b) == Err::<(int, int), CronError>(CronError::Digit),
{
    let x = seq!['+'] + text::decimal(hour);
    let y = seq!['+'] + text::decimal(minute);
    lemma_part_behind_plus(hour);
    lemma_part_behind_plus(minute);
    text::law_split_at_separator(x, ':', y);
    text::law_split_without_separator(x, ':');
    text::law_split_without_separator(y, ':');
    assert(text::split_on(x + seq![':'] + y, ':') =~= seq![x, y]);
    let p = seq!['+'];
    assert(!p.contains(':'));
    text::law_split_at_separator(p, ':', b);
    text::law_split_without_separator(p, ':');
    text::law_split_without_separator(b, ':');
    assert(text::split_on(p + seq![':'] + b, ':') =~= seq![p, b]);
    assert(p.drop_first() =~= Seq::empty());
    assert(text::leading_digits(Seq::empty()) =~= Seq::empty());
    assert(text::digits_value(Seq::empty()) == 0);
}

proof fn lemma_part_behind_plus(n: nat)
    requires
        n <= u32::MAX,
    ensures
        part_value(seq!['+'] + text::decimal(n)) == Ok::<int, CronError>(n as int),
        !(seq!['+'] + text::decimal(n)).contains(':'),
{
    let d = text::decimal(n);
    let s = seq!['+'] + d;
    assert(!s.contains(':')) by {
        text::law_decimal_is_digits(n);
        if s.contains(':') {
            let i = choose|i: int| 0 <= i < s.len() && s[i] == ':';
            assert(d[i - 1] == ':');
        }
    }
    assert(text::after_plus(s) == d) by {
        assert(s[0] == '+');
        assert(s.drop_first() =~= d);
    }
    lemma_decimal_value(n);
    lemma_value_of_digits(s, n);
}

proof fn lemma_decimal_value(n: nat)
    ensures
        text::all_digits(text::decimal(n)),
        text::digits_value(text::decimal(n)) == n,
{
    let none = Seq::<char>::empty();
    lemma_zeros_in_front(none, n);
    assert(none + text::decimal(n) =~= text::decimal(n));
}

proof fn lemma_value_of_digits(part: Seq<char>, n: nat)
    requires
        part.len() > 0,
        text::all_digits(text::after_plus(part)),
        text::digits_value(text::after_plus(part)) == n,
        n <= u32::MAX,
    ensures
        part_value(part) == Ok::<int, CronError>(n as int),
{
    text::lemma_all_digits_lead(text::after_plus(part));
}

proof fn lemma_two_parts(a: Seq<char>, b: Seq<char>)
    requires
        !a.contains(':'),
        !b.contains(':'),
    ensures
        text::split_on(a + seq![':'] + b, ':') == seq![a, b],
{
    text::law_split_at_separator(a, ':', b);
    text::law_split_without_separator(a, ':');
    text::law_split_without_separator(b, ':');
    assert(text::split_on(a + seq![':'] + b, ':') =~= seq![a, b]);
}

proof fn lemma_odd_part(b: Seq<char>, i: int)
    requires
        0 <= i < b.len(),
        !text::digit(b[i]),
        i > 0 || b[0] != '+',
        b.len() <= 9,
    ensures
        part_value(b) == Err::<int, CronError>(CronError::Digit),
{
    let digits = text::after_plus(b);
    let lead = text::leading_digits(digits);
    assert(!text::all_digits(digits)) by {
        if b[0] == '+' {
            assert(digits =~= b.drop_first());
            assert(digits[i - 1] == b[i]);
        } else {
            assert(digits[i] == b[i]);
        }
    }
    assert(text::digits_value(lead) < 1_000_000_000) by {
        lemma_leading_digits_are_few(digits);
        lemma_few_digits(lead);
        lemma_ten_to_grows(lead.len(), 9);
        reveal_with_fuel(ten_to, 10);
    }
}

proof fn lemma_large_part(n: nat, b: Seq<char>)
    requires
        n > u32::MAX,
        b.len() > 0,
        !text::digit(b[0]),
        !b.contains(':'),
    ensures
        part_value(text::decimal(n) + b) == Err::<int, CronError>(CronError::TooLarge),
        !(text::decimal(n) + b).contains(':'),
{
    let d = text::decimal(n);
    let c = d + b;
    lemma_decimal_value(n);
    assert(!c.contains(':')) by {
        text::law_decimal_is_digits(n);
        if c.contains(':') {
            let j = choose|j: int| 0 <= j < c.len() && c[j] == ':';
            if j < d.len() {
                assert(d[j] == ':');
            } else {
                assert(b[j - d.len()] == ':');
            }
        }
    }
    assert(text::leading_digits(c) == d) by {
        assert forall|j: int| 0 <= j < d.len() implies text::digit(#[trigger] c[j]) by {
            assert(text::digit(d[j]));
        }
        assert(c[d.len() as int] == b[0]);
        text::lemma_leading_digits(c, d.len() as int);
        assert(c.take(d.len() as int) =~= d);
    }
    assert(text::after_plus(c) == c) by {
        assert(text::digit(d[0]));
        assert(c[0] == d[0]);
    }
}

/// A minute that is empty or holds anything but digits is told apart behind a good hour, and
/// digits that are too large a number are so whatever stands behind them.
pub proof fn law_minutes_are_read_like_hours(hour: nat, b: Seq<char>, i: int, n: nat)
    requires
        hour <= 23,
        !b.contains(':'),
    ensures
        b.len() == 0 ==> time_of_day(text::decimal(hour) + seq![':'] + b) == Err::<
            (int, int),
            CronError,
        >(CronError::Empty),
        0 <= i < b.len() && !text::digit(b[i]) && (i > 0 || b[0] != '+') && b.len() <= 9
            ==> time_of_day(text::decimal(hour) + seq![':'] + b) == Err::<(int, int), CronError>(
            CronError::Digit,
        ),
        b.len() > 0 && !text::digit(b[0]) && n > u32::MAX ==> time_of_day(
            text::decimal(hour) + seq![':'] + (text::decimal(n) + b),
        ) == Err::<(int, int), CronError>(CronError::TooLarge),
{
    let a = text::decimal(hour);
    assert(part_value(a) == Ok::<int, CronError>(hour as int) && !a.contains(':')) by {
        lemma_part_of_number(Seq::empty(), hour);
        assert(Seq::<char>::empty() + a =~= a);
    }
    lemma_two_parts(a, b);
    if 0 <= i < b.len() && !text::digit(b[i]) && (i > 0 || b[0] != '+') && b.len() <= 9 {
        lemma_odd_part(b, i);
    }
    if b.len() > 0 && !text::digit(b[0]) && n > u32::MAX {
        lemma_large_part(n, b);
        lemma_two_parts(a, text::decimal(n) + b);
    }
}

} // verus!
