use rss_digest::schedule::{
    next_run, parse_cron_time, plan_next_run, resolve_timezone, wait_seconds, CronError,
    ScheduleError, PAUSE_SECS,
};

#[test]
fn test_parse_cron_time_valid() {
    assert_eq!(parse_cron_time("06:00").unwrap(), (6, 0));
    assert_eq!(parse_cron_time("14:30").unwrap(), (14, 30));
    assert_eq!(parse_cron_time("23:59").unwrap(), (23, 59));
}

#[test]
fn test_parse_cron_time_invalid() {
    assert!(parse_cron_time("invalid").is_err());
    assert!(parse_cron_time("60:00").is_err());
    assert!(parse_cron_time("12:60").is_err());
}

#[test]
fn each_error_of_a_time_has_its_report() {
    let cases = [
        ("06", CronError::Format, "Invalid time format, expected HH:MM"),
        ("06:00:00", CronError::Format, "Invalid time format, expected HH:MM"),
        (":00", CronError::Empty, "cannot parse integer from empty string"),
        ("6:", CronError::Empty, "cannot parse integer from empty string"),
        ("six:00", CronError::Digit, "invalid digit found in string"),
        ("-6:00", CronError::Digit, "invalid digit found in string"),
        (" 6:00", CronError::Digit, "invalid digit found in string"),
        ("4294967296:00", CronError::TooLarge, "number too large to fit in target type"),
        ("99999999999x:00", CronError::TooLarge, "number too large to fit in target type"),
        ("+99999999999x:00", CronError::TooLarge, "number too large to fit in target type"),
        ("4294967295x:00", CronError::Digit, "invalid digit found in string"),
        ("x99999999999:00", CronError::Digit, "invalid digit found in string"),
        ("+:00", CronError::Digit, "invalid digit found in string"),
        ("++6:00", CronError::Digit, "invalid digit found in string"),
        ("24:00", CronError::Range, "Invalid time values"),
        ("4294967295:00", CronError::Range, "Invalid time values"),
    ];
    for (time, error, report) in cases {
        let found = parse_cron_time(time).unwrap_err();
        assert_eq!(found, error, "{}", time);
        assert_eq!(found.message(), report);
        if let Err(e) = time.split(':').next().unwrap().parse::<u32>() {
            if error != CronError::Format && !time.is_empty() {
                assert_eq!(e.to_string(), report);
            }
        }
    }
    assert_eq!(parse_cron_time("+6:+5").unwrap(), (6, 5));
    assert_eq!(parse_cron_time("0006:5").unwrap(), (6, 5));
}

#[test]
fn the_next_run_is_the_first_ahead() {
    assert_eq!(next_run(100, Some(101), Some(201), Some(301)), Some(101));
    assert_eq!(next_run(101, Some(101), Some(201), Some(301)), Some(201));
    assert_eq!(next_run(100, None, Some(201), Some(301)), Some(201));
    assert_eq!(next_run(100, None, None, Some(301)), Some(301));
    assert_eq!(next_run(100, None, Some(99), None), None);
}

#[test]
fn the_wait_is_in_whole_seconds() {
    assert_eq!(wait_seconds(110, 100, 0), 10);
    assert_eq!(wait_seconds(110, 100, 1), 9);
    assert_eq!(wait_seconds(101, 100, 999_999_999), 0);
    assert_eq!(wait_seconds(100, 100, 0), 0);
    assert_eq!(wait_seconds(50, 100, 0), 0);
    assert_eq!(wait_seconds(i64::MAX, i64::MIN, 0), u64::MAX);
}

#[test]
fn a_run_in_utc_is_today_or_tomorrow() {
    // 2025-07-01 00:00:00 UTC
    let midnight = 1_751_328_000;
    let run = plan_next_run("06:00", "UTC", midnight, 0).unwrap();
    assert_eq!(run.at, midnight + 6 * 3600);
    assert_eq!(run.wait_secs, 6 * 3600);
    let run = plan_next_run("06:00", "UTC", midnight + 6 * 3600, 0).unwrap();
    assert_eq!(run.at, midnight + 30 * 3600);
}

#[test]
fn the_time_is_that_of_the_time_zone() {
    let midnight = 1_751_328_000;
    // 06:00 in Berlin is 04:00 UTC in summer.
    let run = plan_next_run("06:00", "Europe/Berlin", midnight, 0).unwrap();
    assert_eq!(run.at, midnight + 4 * 3600);
    // At 00:00 UTC it is still 30 June in New York, where 06:00 is 10:00 UTC.
    let run = plan_next_run("06:00", "America/New_York", midnight, 0).unwrap();
    assert_eq!(run.at, midnight + 10 * 3600);
    // 22:00 on 30 June in New York is 02:00 UTC.
    let run = plan_next_run("22:00", "America/New_York", midnight, 0).unwrap();
    assert_eq!(run.at, midnight + 2 * 3600);
}

#[test]
fn a_time_that_the_clocks_skip_gives_way_to_the_first_after_it() {
    // 2025-03-30 00:00:00 UTC: in Berlin the clocks go from 02:00 to 03:00 at 01:00 UTC.
    let day = 1_743_292_800;
    let run = plan_next_run("02:30", "Europe/Berlin", day, 0).unwrap();
    assert_eq!(run.at, day + 3600);
    let run = plan_next_run("02:00", "Europe/Berlin", day, 0).unwrap();
    assert_eq!(run.at, day + 3600);
    let next = plan_next_run("02:30", "Europe/Berlin", run.at, 0).unwrap();
    assert_eq!(next.at, day + 24 * 3600 + 1800);
}

#[test]
fn a_date_that_the_clocks_skip_has_no_run() {
    // Samoa had no 30 December 2011: after 29 December 24:00 (10:00 UTC on the 30th) came 31
    // December, 14 hours ahead of UTC.
    let noon = 1_325_160_000;
    let run = plan_next_run("06:00", "Pacific/Apia", noon, 0).unwrap();
    assert_eq!(run.at, 1_325_174_400);
    let next = plan_next_run("06:00", "Pacific/Apia", run.at, 0).unwrap();
    assert_eq!(next.at, 1_325_239_200 + 6 * 3600);
}

#[test]
fn of_two_such_times_the_first_counts() {
    // 2025-10-26 00:00:00 UTC: in Berlin 02:30 comes at 00:30 and again at 01:30 UTC.
    let day = 1_761_436_800;
    let run = plan_next_run("02:30", "Europe/Berlin", day, 0).unwrap();
    assert_eq!(run.at, day + 1800);
}

#[test]
fn an_unknown_time_zone_is_utc() {
    assert_eq!(resolve_timezone("Europe/Berlin"), "Europe/Berlin");
    assert_eq!(resolve_timezone("UTC"), "UTC");
    assert_eq!(resolve_timezone("Nowhere/City"), "UTC");
    assert_eq!(resolve_timezone(""), "UTC");
    let known = plan_next_run("06:00", "UTC", 1_751_328_000, 0).unwrap();
    let unknown = plan_next_run("06:00", "Nowhere/City", 1_751_328_000, 0).unwrap();
    assert_eq!(known.at, unknown.at);
}

#[test]
fn a_plan_fails_on_its_time_or_on_its_instant() {
    assert_eq!(
        plan_next_run("25:00", "UTC", 0, 0).unwrap_err(),
        ScheduleError::Time(CronError::Range)
    );
    assert_eq!(
        plan_next_run("06:00", "UTC", i64::MAX, 0).unwrap_err(),
        ScheduleError::NoInstant
    );
    assert_eq!(
        ScheduleError::Time(CronError::Range).message(),
        "Invalid time values"
    );
    assert_eq!(
        ScheduleError::NoInstant.message(),
        "No instant for the scheduled time"
    );
    assert!(plan_next_run("06:00", "Europe/Berlin", 8_100_000_000_000, 0).is_ok());
    assert!(plan_next_run("06:00", "Europe/Berlin", -8_100_000_000_000, 0).is_ok());
    // The last second that the calendar has in UTC: its local time in Berlin is beyond.
    let end = 8_210_266_876_799;
    assert_eq!(
        plan_next_run("06:00", "Europe/Berlin", end, 0).unwrap_err(),
        ScheduleError::NoInstant
    );
    assert!(plan_next_run("06:00", "UTC", end - 86_400, 0).is_ok());
}

#[test]
fn a_run_is_not_planned_twice() {
    let now = 1_751_328_000;
    let run = plan_next_run("06:00", "Europe/Berlin", now, 500).unwrap();
    let later = now + run.wait_secs as i64 + PAUSE_SECS as i64;
    let next = plan_next_run("06:00", "Europe/Berlin", later, 500).unwrap();
    assert_eq!(next.at, run.at + 24 * 3600);
}
