use log_zipper::stamp::archive_name;
use log_zipper::stamp::format_stamp;
use log_zipper::stamp::now_stamp;
use log_zipper::stamp::stamp_of_clock;
use log_zipper::stamp::Stamp;

fn stamp(year: u16, month: u8, day: u8, hour: u8, minute: u8, second: u8) -> Stamp {
    Stamp { year, month, day, hour, minute, second }
}

#[test]
fn stamp_is_rendered_with_zero_padding() {
    let t = stamp(2023, 4, 5, 6, 7, 8);
    assert_eq!(format_stamp(&t), "2023-04-05_06-07-08");
}

#[test]
fn stamp_rendering_extremes() {
    assert_eq!(format_stamp(&stamp(0, 1, 1, 0, 0, 0)), "0000-01-01_00-00-00");
    assert_eq!(format_stamp(&stamp(9999, 12, 31, 23, 59, 59)), "9999-12-31_23-59-59");
}

#[test]
fn archive_name_has_stamp_name_and_extension() {
    let t = stamp(2023, 4, 5, 6, 7, 8);
    assert_eq!(archive_name(&t, "app.log"), "2023-04-05_06-07-08_app.log.zip");
}

#[test]
fn distinct_sources_get_distinct_archive_names() {
    let t = stamp(2023, 4, 5, 6, 7, 8);
    assert_ne!(archive_name(&t, "a.log"), archive_name(&t, "b.log"));
}

#[test]
fn clock_reading_is_taken_field_for_field() {
    let t = stamp_of_clock(2023, 4, 5, 6, 7, 8);
    assert_eq!(t, Stamp { year: 2023, month: 4, day: 5, hour: 6, minute: 7, second: 8 });
}

#[test]
fn out_of_range_years_are_clamped() {
    assert_eq!(stamp_of_clock(-44, 1, 1, 0, 0, 0).year, 0);
    assert_eq!(stamp_of_clock(10_000, 1, 1, 0, 0, 0).year, 9999);
    assert_eq!(stamp_of_clock(0, 1, 1, 0, 0, 0).year, 0);
    assert_eq!(stamp_of_clock(9999, 1, 1, 0, 0, 0).year, 9999);
}

#[test]
fn clock_yields_calendar_ranges() {
    let t = now_stamp();
    assert!(t.year <= 9999);
    assert!((1..=12).contains(&t.month));
    assert!((1..=31).contains(&t.day));
    assert!(t.hour <= 23);
    assert!(t.minute <= 59);
    assert!(t.second <= 59);
}
