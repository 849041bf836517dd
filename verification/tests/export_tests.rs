use tag_timer::templates::{end_time_to_human_time, to_human_date, FormatError};
use tag_timer::timer_store::{DataStore, Timer};
use tag_timer::timer_utils::export_timers;
use tag_timer::uid::TagId;

fn stopped_timer(id: i64, start_time: i64, duration: i64) -> Timer {
    Timer {
        id,
        unique_id: String::from("tag"),
        project_id: 1,
        start_time,
        is_current: false,
        duration,
    }
}

#[test]
fn export_single_timer_exact_bytes() {
    // one hour and two minutes starting at the epoch, in UTC
    let timers = vec![stopped_timer(1, 0, 3720)];
    let bytes = export_timers(timers, "UTC").unwrap();
    let text = String::from_utf8(bytes).unwrap();
    assert_eq!(
        text,
        "start_time,end_time,duration\n1970-01-01 00:00,1970-01-01 01:02,1:2\n"
    );
}

#[test]
fn export_zero_duration_leaves_fields_empty() {
    let timers = vec![stopped_timer(1, 1431648000, 0)];
    let bytes = export_timers(timers, "UTC").unwrap();
    let text = String::from_utf8(bytes).unwrap();
    assert_eq!(text, "start_time,end_time,duration\n2015-05-15 00:00,,\n");
}

#[test]
fn export_keeps_input_order() {
    let timers = vec![
        stopped_timer(2, 1431648000, 60),
        stopped_timer(1, 0, 7200),
    ];
    let bytes = export_timers(timers, "UTC").unwrap();
    let text = String::from_utf8(bytes).unwrap();
    let lines: Vec<&str> = text.lines().collect();
    assert_eq!(lines.len(), 3);
    assert_eq!(lines[0], "start_time,end_time,duration");
    assert!(lines[1].starts_with("2015-05-15 00:00"));
    assert!(lines[2].starts_with("1970-01-01 00:00"));
    // a minute's duration still renders zero minutes, per the rounding policy
    assert_eq!(lines[1], "2015-05-15 00:00,2015-05-15 00:01,0:0");
    assert_eq!(lines[2], "1970-01-01 00:00,1970-01-01 02:00,2:0");
}

#[test]
fn export_unknown_timezone_aborts() {
    let timers = vec![stopped_timer(1, 0, 60)];
    let r = export_timers(timers, "No-Such-Zone");
    assert_eq!(r.unwrap_err(), FormatError::UnknownTimezone);
}

#[test]
fn export_unrepresentable_row_aborts_whole_export() {
    let timers = vec![
        stopped_timer(1, 0, 60),
        stopped_timer(2, i64::MAX - 1, 1),
    ];
    let r = export_timers(timers, "UTC");
    assert_eq!(r.unwrap_err(), FormatError::Unrepresentable);
}

#[test]
fn export_empty_store_has_header_only() {
    let timers: Vec<Timer> = Vec::new();
    let bytes = export_timers(timers, "UTC").unwrap();
    let text = String::from_utf8(bytes).unwrap();
    assert_eq!(text, "start_time,end_time,duration\n");
}

#[test]
fn export_from_store_rows() {
    let mut store = DataStore::new();
    let uid = TagId::new("export-tag").unwrap();
    store.create_project(&uid, "timed-work").unwrap();
    store.toggle_current_at(&uid, 0).unwrap();
    store.toggle_current_at(&uid, 3720).unwrap();

    let timers = store.get_exportable_timers_by_tag(&uid).unwrap();
    let bytes = export_timers(timers, "UTC").unwrap();
    let text = String::from_utf8(bytes).unwrap();
    assert_eq!(
        text,
        "start_time,end_time,duration\n1970-01-01 00:00,1970-01-01 01:02,1:2\n"
    );
}

#[test]
fn human_date_rendering() {
    assert_eq!(to_human_date(&0, "UTC").unwrap(), "Thu, 1970-01-01 00:00");

    let timer = stopped_timer(1, 0, 3600);
    assert_eq!(
        end_time_to_human_time(&timer, "UTC").unwrap(),
        "Thu, 1970-01-01 01:00"
    );
}
