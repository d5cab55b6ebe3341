use sntry::time::{
    check_duration, check_time_spec, elapsed_exceeds, parse, parse_at, parse_at_checked, parse_duration,
    poll_interval_secs, timestamp_from_epoch, to_iso, utc_now, Duration, TimeError, Timestamp,
};

fn at(secs: i64) -> Timestamp {
    Timestamp { secs, nanos: 0 }
}

#[test]
fn durations_in_seconds() {
    assert_eq!(parse_duration("30s").ok().unwrap().seconds, 30);
    assert_eq!(parse_duration("15m").ok().unwrap().seconds, 900);
    assert_eq!(parse_duration("1h").ok().unwrap().seconds, 3600);
    assert_eq!(parse_duration("7d").ok().unwrap().seconds, 604800);
    assert_eq!(parse_duration(" 2w ").ok().unwrap().seconds, 1209600);
    assert_eq!(parse_duration("-5m").ok().unwrap().seconds, -300);
    assert_eq!(parse_duration("+2s").ok().unwrap().seconds, 2);
}

#[test]
fn duration_errors() {
    let e = parse_duration("").err().unwrap();
    assert!(matches!(e, TimeError::EmptyDuration));
    assert_eq!(e.message(), "empty duration");
    assert_eq!(parse_duration("abc").err().unwrap().message(), "invalid duration: abc");
    assert_eq!(parse_duration("5x").err().unwrap().message(), "unknown duration unit 'x' in '5x'");
    assert_eq!(parse_duration("h").err().unwrap().message(), "invalid duration: h");
}

#[test]
fn duration_guards() {
    assert!(check_duration("5m"));
    assert!(check_duration("bogus"));
    assert!(!check_duration("5\u{e9}"));
    assert!(!check_duration("9223372036854775807s"));
    assert!(check_time_spec("now-1h"));
    assert!(check_time_spec("2024-01-02T03:04:05Z"));
    assert!(!check_time_spec("now-9223372036854775807w"));
}

#[test]
fn relative_specs() {
    let now = at(1_700_000_000);
    assert_eq!(parse_at("now", &now).ok().unwrap().secs, 1_700_000_000);
    assert_eq!(parse_at("now-1h", &now).ok().unwrap().secs, 1_699_996_400);
    assert_eq!(parse_at(" -24h ", &now).ok().unwrap().secs, 1_699_913_600);
    assert_eq!(parse_at("now--1m", &now).ok().unwrap().secs, 1_700_000_060);
    assert_eq!(parse_at("now-1q", &now).err().unwrap().message(), "unknown duration unit 'q' in '1q'");
}

#[test]
fn absolute_specs() {
    let now = at(0);
    assert_eq!(parse_at("2024-01-02T03:04:05Z", &now).ok().unwrap().secs, 1_704_164_645);
    assert_eq!(parse_at("2024-01-02T03:04:05+02:00", &now).ok().unwrap().secs, 1_704_157_445);
    assert_eq!(parse_at("2024-01-02T03:04:05", &now).ok().unwrap().secs, 1_704_164_645);
    let e = parse_at("yesterday", &now).err().unwrap();
    assert_eq!(e.message(), "invalid time spec: yesterday");
}

#[test]
fn out_of_range_relative_spec() {
    let now = at(-8_334_601_228_800);
    let e = parse_at_checked("now-1d", &now).err().unwrap();
    assert_eq!(e.message(), "time spec out of range: now-1d");
    assert_eq!(parse_at_checked("now", &now).ok().unwrap().secs, -8_334_601_228_800);
}

#[test]
fn clock_based_parse() {
    let t = parse("now-1h").ok().unwrap();
    let later = parse("now").ok().unwrap();
    assert!(later.secs - t.secs >= 3599);
}

#[test]
fn iso_output() {
    assert_eq!(to_iso(&at(0)), "1970-01-01T00:00:00Z");
    assert_eq!(to_iso(&Timestamp { secs: 1_700_000_000, nanos: 999_000_000 }), "2023-11-14T22:13:20Z");
}

#[test]
fn elapsed_comparison() {
    let day = Duration { seconds: 86_400 };
    assert!(elapsed_exceeds(&at(200_000), &at(100_000), &day));
    assert!(!elapsed_exceeds(&at(186_400), &at(100_000), &day));
    assert!(elapsed_exceeds(&Timestamp { secs: 186_400, nanos: 1 }, &at(100_000), &day));
}

#[test]
fn poll_interval_floor() {
    assert_eq!(poll_interval_secs(&Duration { seconds: 5 }), 5);
    assert_eq!(poll_interval_secs(&Duration { seconds: 1 }), 2);
    assert_eq!(poll_interval_secs(&Duration { seconds: -3 }), 5);
    assert_eq!(poll_interval_secs(&Duration { seconds: 60 }), 60);
}

#[test]
fn clock_reading() {
    let t = utc_now().unwrap();
    assert!(t.secs > 1_600_000_000);
    assert!(t.nanos < 1_000_000_000);
    assert_eq!(
        TimeError::ClockUnavailable.message(),
        "the system clock reads outside the representable range"
    );
}

#[test]
fn epoch_readings() {
    let t = timestamp_from_epoch(1_700_000_000, 5).unwrap();
    assert_eq!((t.secs, t.nanos), (1_700_000_000, 5));
    assert!(timestamp_from_epoch(8_210_266_876_799, 0).is_some());
    assert!(timestamp_from_epoch(8_210_266_876_800, 0).is_none());
}

#[test]
fn absolute_specs_without_the_clock() {
    assert_eq!(parse(" 2024-01-02T03:04:05Z ").ok().unwrap().secs, 1_704_164_645);
    assert_eq!(parse("2024-01-02T03:04:05").ok().unwrap().secs, 1_704_164_645);
    assert_eq!(parse("soon").err().unwrap().message(), "invalid time spec: soon");
}
