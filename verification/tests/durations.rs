use automode::duration::{format_duration, parse_duration};

#[test]
fn parse_duration_accepts_seconds_minutes_hours_and_days() {
    assert_eq!(parse_duration("45").unwrap(), 45);
    assert_eq!(parse_duration("30m").unwrap(), 1800);
    assert_eq!(parse_duration("2h").unwrap(), 7200);
    assert_eq!(parse_duration("1h30m").unwrap(), 5400);
    assert_eq!(parse_duration("1d2h").unwrap(), 93600);
}

#[test]
fn parse_duration_rejects_invalid_values() {
    assert!(parse_duration("").is_err());
    assert!(parse_duration("1x").is_err());
    assert!(parse_duration("10m5").is_err());
    assert!(parse_duration("0m").is_err());
}

#[test]
fn invalid_durations_are_explained() {
    let message = |raw: &str| parse_duration(raw).unwrap_err();
    assert_eq!(message("  "), "duration must not be empty");
    assert_eq!(message("m"), "invalid duration `m`");
    assert_eq!(message("0h0m"), "invalid duration `0h0m`");
    assert_eq!(message(" 10m5 "), "invalid duration ` 10m5 `; trailing number needs a unit");
    assert_eq!(message("1y"), "invalid duration unit `y` in `1y`; use s, m, h, or d");
    assert_eq!(message("18446744073709551615d"), "duration `18446744073709551615d` is too large");
    assert_eq!(
        message("18446744073709551615s1s"),
        "duration `18446744073709551615s1s` is too large"
    );
    let overflow = "18446744073709551616".parse::<u64>().unwrap_err();
    assert_eq!(
        message("18446744073709551616"),
        format!("invalid duration `18446744073709551616`: {overflow}")
    );
    assert_eq!(
        message("18446744073709551616s"),
        format!("invalid duration `18446744073709551616s`: {overflow}")
    );
}

#[test]
fn a_plain_zero_is_a_duration() {
    assert_eq!(parse_duration("0"), Ok(0));
    assert_eq!(parse_duration(" 007 "), Ok(7));
    assert_eq!(parse_duration("1D1h1M1s"), Ok(90_061));
}

#[test]
fn durations_are_written_in_the_largest_unit() {
    assert_eq!(format_duration(0), "0d");
    assert_eq!(format_duration(45), "45s");
    assert_eq!(format_duration(600), "10m");
    assert_eq!(format_duration(7_200), "2h");
    assert_eq!(format_duration(172_800), "2d");
    for secs in [1, 59, 60, 61, 3_600, 86_400, 86_401, u64::MAX] {
        assert_eq!(parse_duration(&format_duration(secs)), Ok(secs));
    }
}
