use tag_timer::templates::{
    extract_timer, extract_timer_values, format_time, from_render_timezone, to_render_timezone,
    FormatError, TimerPart,
};

#[test]
fn extract_timer_under_hour() {
    let result = extract_timer(TimerPart::Min, 45);

    assert!(result.is_ok());
    assert_eq!(result.unwrap(), 0);

    let result = extract_timer(TimerPart::Min, 45 * 60);

    assert!(result.is_ok());
    assert_eq!(result.unwrap(), 45);
}

#[test]
fn extract_timer_over_hour() {
    let time = ((2 * 60) + 35) * 60;
    let result = extract_timer(TimerPart::Min, time);

    assert!(result.is_ok());
    assert_eq!(result.unwrap(), 35);

    let result = extract_timer(TimerPart::Hour, time);
    assert_eq!(result.unwrap(), 2);
}

#[test]
fn extract_timer_long_duration() {
    let time = 74242;

    let result = extract_timer(TimerPart::Min, time);

    assert!(result.is_ok());
    assert_eq!(result.unwrap(), 37);

    let result = extract_timer(TimerPart::Hour, time);
    assert_eq!(result.unwrap(), 20);
}

#[test]
fn extract_timer_zero_and_boundaries() {
    assert_eq!(extract_timer(TimerPart::Min, 0).unwrap(), 0);
    assert_eq!(extract_timer(TimerPart::Min, 45).unwrap(), 0);
    assert_eq!(extract_timer(TimerPart::Min, 2700).unwrap(), 45);
    assert_eq!(extract_timer(TimerPart::Hour, 9300).unwrap(), 2);
    assert_eq!(extract_timer(TimerPart::Min, 9300).unwrap(), 35);
    // a remainder of exactly sixty seconds counts as zero minutes
    assert_eq!(extract_timer(TimerPart::Min, 60).unwrap(), 0);
    assert_eq!(extract_timer(TimerPart::Min, 61).unwrap(), 1);
    // exactly one hour is one whole hour with no minute remainder
    assert_eq!(extract_timer(TimerPart::Hour, 3600).unwrap(), 1);
    assert_eq!(extract_timer(TimerPart::Min, 3600).unwrap(), 0);
    assert_eq!(extract_timer(TimerPart::Hour, 3601).unwrap(), 1);
}

#[test]
fn render_key_round_trip() {
    let tz = from_render_timezone("US-Pacific").unwrap();
    assert_eq!(to_render_timezone(&tz), "US-Pacific");

    let tz = from_render_timezone("America-New_York").unwrap();
    assert_eq!(to_render_timezone(&tz), "America-New_York");
}

#[test]
fn unknown_timezone_is_refused() {
    let r = from_render_timezone("Not-A-Zone");
    assert_eq!(r.unwrap_err(), FormatError::UnknownTimezone);
}

#[test]
fn format_time_known_instant() {
    let tz = from_render_timezone("UTC").unwrap();
    let formatted = format_time(&0, &tz, "%F %H:%M").unwrap();
    assert_eq!(formatted, "1970-01-01 00:00");

    let formatted = format_time(&1431648000, &tz, "%F %H:%M").unwrap();
    assert_eq!(formatted, "2015-05-15 00:00");
}

#[test]
fn format_time_zone_offset_applied() {
    // 2015-05-15 00:00 UTC is the previous evening on the US west coast
    let tz = from_render_timezone("US-Pacific").unwrap();
    let formatted = format_time(&1431648000, &tz, "%F %H:%M").unwrap();
    assert_eq!(formatted, "2015-05-14 17:00");
}

#[test]
fn format_time_out_of_range_epoch() {
    let tz = from_render_timezone("UTC").unwrap();
    let r = format_time(&i64::MAX, &tz, "%F %H:%M");
    assert_eq!(r.unwrap_err(), FormatError::Unrepresentable);
}

#[test]
fn extract_timer_values_renders_parts() {
    assert_eq!(extract_timer_values("9300", "hours").unwrap(), "2");
    assert_eq!(extract_timer_values("9300", "minutes").unwrap(), "35");
    assert_eq!(extract_timer_values("45", "minutes").unwrap(), "0");
}

#[test]
fn extract_timer_values_rejects_non_numbers() {
    assert_eq!(
        extract_timer_values("abc", "minutes").unwrap_err(),
        FormatError::NotANumber
    );
    assert_eq!(
        extract_timer_values("", "hours").unwrap_err(),
        FormatError::NotANumber
    );
    assert_eq!(
        extract_timer_values("99999999999999999999", "hours").unwrap_err(),
        FormatError::NotANumber
    );
}
