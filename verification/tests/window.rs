//! The hours: times of day, days of the week and daily windows.

use location::{Moment, Weekday, Window, WindowError};

const SECOND: i128 = 1_000_000_000;

const HOUR: i128 = 3_600 * SECOND;

fn moment(text: &str) -> Moment {
    Moment::parse(text).expect("a time of day")
}

#[test]
fn a_time_of_day_reads_and_prints_as_hours_and_minutes() {
    assert_eq!(moment("08:30").to_string(), "08:30");
    assert_eq!(moment("23:59:59").to_string(), "23:59");
    assert!(Moment::parse("24:00").is_err());
    assert!(Moment::parse("noon").is_err());
    assert_eq!(Moment::of(0), None, "unrecorded is not midnight");
    assert_eq!(
        Moment::of(13 * HOUR + 5 * 60 * SECOND).expect("a time"),
        moment("13:05")
    );
}

#[test]
fn an_overnight_window_wraps_past_midnight() {
    let night = Window::between(moment("22:00"), moment("06:00"));

    assert_eq!(night.admits(23 * HOUR), Some(true));
    assert_eq!(night.admits(3 * HOUR), Some(true));
    assert_eq!(night.admits(12 * HOUR), Some(false));
    assert_eq!(night.admits(0), None);
}

#[test]
fn the_first_of_january_1970_was_a_thursday() {
    assert_eq!(Weekday::of(1), Weekday::Thursday);
    assert_eq!(Weekday::of(4 * 24 * HOUR), Weekday::Monday);
    assert_eq!(Weekday::of(-24 * HOUR), Weekday::Wednesday);

    let weekdays = Window::between(moment("00:00"), moment("23:59")).on(&[
        Weekday::Monday,
        Weekday::Tuesday,
        Weekday::Wednesday,
        Weekday::Thursday,
        Weekday::Friday,
    ]);
    assert_eq!(weekdays.admits(4 * 24 * HOUR + HOUR), Some(true), "Monday");
    assert_eq!(
        weekdays.admits(2 * 24 * HOUR + HOUR),
        Some(false),
        "Saturday"
    );
}

#[test]
fn a_refused_text_is_quoted_whole() {
    assert_eq!(
        Moment::parse(" noon ").unwrap_err().to_string(),
        "' noon ' is not a time of day as HH:MM"
    );
    assert_eq!(
        Moment::parse("").unwrap_err().to_string(),
        "'' is not a time of day as HH:MM"
    );
    assert_eq!(
        WindowError::new("said".to_string()).to_string(),
        "said"
    );
}

#[test]
fn a_time_of_day_needs_two_or_three_numbers_on_the_clock() {
    for text in [
        "12", "12:", ":30", "12:30:", "12:30:15:00", "12:60", "12:30:60", "-1:00", "1a:00",
        "12 :30", "+:30", "+8:30", "08:+30", "+8:+30", "08:30:+1", "4294967296:00", "12:30:4294967308", "1２:30",
    ] {
        assert!(Moment::parse(text).is_err(), "{text}");
    }
}

#[test]
fn a_time_of_day_reads_with_space_around_it_and_numbers_of_any_length() {
    assert_eq!(moment(" \t08:30\u{3000}\n"), moment("08:30"));
    assert_eq!(moment("8:5"), moment("08:05"));
    assert_eq!(moment("008:0005"), moment("08:05"));
    assert_eq!(moment("00:00:01"), Moment::of(SECOND).expect("a time"));
    assert_eq!(
        moment("23:59:59"),
        Moment::of(24 * HOUR - 1).expect("a time")
    );
}

#[test]
fn a_written_time_reads_back_to_the_minute() {
    for (text, written) in [("00:00:59", "00:00"), ("07:09:10", "07:09"), ("19:45", "19:45")] {
        assert_eq!(moment(text).to_string(), written);
        assert_eq!(moment(written).to_string(), written);
    }
    assert_eq!(moment(&moment("07:09:10").to_string()), moment("07:09"));
}

#[test]
fn times_of_day_are_ordered_by_the_clock() {
    assert!(moment("08:00") < moment("08:00:01"));
    assert!(moment("17:00") > moment("08:59:59"));
    assert!(moment("12:00") <= moment("12:00:00"));
    assert_eq!(moment("12:00").max(moment("13:00")), moment("13:00"));
}

#[test]
fn an_instant_before_the_epoch_falls_on_its_own_day_and_second() {
    assert_eq!(Moment::of(-1), Some(moment("23:59:59")));
    assert_eq!(Weekday::of(-1), Weekday::Wednesday);
    assert_eq!(Moment::of(-SECOND), Some(moment("23:59:59")));
    assert_eq!(Weekday::of(-SECOND), Weekday::Wednesday);
    assert_eq!(Moment::of(-SECOND - 1), Some(moment("23:59:58")));
    assert_eq!(Moment::of(-24 * HOUR), Some(moment("00:00")));
    assert_eq!(Weekday::of(-24 * HOUR - 1), Weekday::Tuesday);
    assert_eq!(Moment::of(SECOND - 1), Some(moment("00:00")));
    assert_eq!(Moment::of(1), Some(moment("00:00")));
}

#[test]
fn a_day_however_far_has_its_weekday() {
    let far = i64::MAX as i128 * 24 * HOUR;
    assert_eq!(Weekday::of(far), Weekday::Thursday);
    assert_eq!(Weekday::of(far - 24 * HOUR), Weekday::Wednesday);
    assert_eq!(Weekday::of(far + 24 * HOUR), Weekday::Friday);
    assert_eq!(
        Weekday::of(9_223_372_036_854_775_808 * 86_400_000_000_000),
        Weekday::Friday
    );
    assert_eq!(Weekday::of(-far), Weekday::Thursday);
    assert_eq!(Weekday::of(-far - 24 * HOUR), Weekday::Wednesday);
    assert_eq!(Weekday::of(-far - 2 * 24 * HOUR), Weekday::Tuesday);
    assert!(Moment::of(i128::MAX).is_some());
    assert!(Moment::of(i128::MIN).is_some());
    assert_eq!(
        Weekday::of(i128::MAX),
        Weekday::of(i128::MAX - 7 * 24 * HOUR)
    );
    assert_eq!(
        Weekday::of(i128::MIN),
        Weekday::of(i128::MIN + 7 * 24 * HOUR)
    );
}

#[test]
fn each_day_has_a_bit_of_its_own() {
    let days = [
        Weekday::Monday,
        Weekday::Tuesday,
        Weekday::Wednesday,
        Weekday::Thursday,
        Weekday::Friday,
        Weekday::Saturday,
        Weekday::Sunday,
    ];
    for (place, day) in days.iter().enumerate() {
        assert_eq!(day.bit(), 1 << place);
    }
    assert_eq!(days.iter().fold(0, |mask, day| mask | day.bit()), 0b111_1111);
}

#[test]
fn the_days_of_a_week_follow_one_another() {
    let days = [
        Weekday::Thursday,
        Weekday::Friday,
        Weekday::Saturday,
        Weekday::Sunday,
        Weekday::Monday,
        Weekday::Tuesday,
        Weekday::Wednesday,
        Weekday::Thursday,
    ];
    for (n, day) in days.iter().enumerate() {
        let noon = n as i128 * 24 * HOUR + 12 * HOUR;
        assert_eq!(Weekday::of(noon), *day);
        assert_eq!(Moment::of(noon), Some(moment("12:00")));
    }
}

#[test]
fn a_window_opens_inclusive_and_closes_exclusive() {
    let office = Window::between(moment("08:00"), moment("17:00"));
    assert_eq!(office.admits(8 * HOUR), Some(true));
    assert_eq!(office.admits(8 * HOUR - 1), Some(false));
    assert_eq!(office.admits(17 * HOUR - 1), Some(true));
    assert_eq!(office.admits(17 * HOUR), Some(false));

    let never = Window::between(moment("08:00"), moment("08:00"));
    assert_eq!(never.admits(8 * HOUR), Some(false));
    assert_eq!(never.admits(20 * HOUR), Some(false));
    assert_eq!(office.to_string(), "08:00-17:00");
}

#[test]
fn a_window_and_its_reverse_share_out_the_day() {
    let day = Window::between(moment("06:00"), moment("22:00"));
    let night = Window::between(moment("22:00"), moment("06:00"));
    for hour in 1..48 {
        let at = hour * HOUR;
        assert_ne!(day.admits(at), night.admits(at));
    }
}

#[test]
fn each_day_is_kept_apart_and_the_day_is_the_instants() {
    let days = [
        Weekday::Monday,
        Weekday::Tuesday,
        Weekday::Wednesday,
        Weekday::Thursday,
        Weekday::Friday,
        Weekday::Saturday,
        Weekday::Sunday,
    ];
    for kept in days {
        let window = Window::between(moment("00:00"), moment("23:59")).on(&[kept, kept]);
        for n in 0..7 {
            let noon = n * 24 * HOUR + 12 * HOUR;
            assert_eq!(window.admits(noon), Some(Weekday::of(noon) == kept));
        }
    }
    let none = Window::between(moment("00:00"), moment("23:59")).on(&[]);
    assert_eq!(none.admits(12 * HOUR), Some(false));

    // Overnight from Thursday to Friday: the hours past midnight are Friday's.
    let night = Window::between(moment("22:00"), moment("06:00")).on(&[Weekday::Thursday]);
    assert_eq!(night.admits(23 * HOUR), Some(true));
    assert_eq!(night.admits(27 * HOUR), Some(false));
    assert_eq!(night.admits(3 * HOUR), Some(true));
}

#[test]
fn every_day_is_all_seven_days() {
    let every = Window::between(moment("08:00"), moment("17:00"));
    let listed = every.clone().on(&[
        Weekday::Monday,
        Weekday::Tuesday,
        Weekday::Wednesday,
        Weekday::Thursday,
        Weekday::Friday,
        Weekday::Saturday,
        Weekday::Sunday,
    ]);
    assert_eq!(every, listed);
    for hour in 1..48 {
        assert_eq!(every.admits(hour * HOUR), every.admits((hour + 24) * HOUR));
    }
}

#[test]
fn putting_a_window_on_days_replaces_its_days() {
    let office = Window::between(moment("08:00"), moment("17:00"));
    let weekend = [Weekday::Saturday, Weekday::Sunday];
    let again = office.clone().on(&[Weekday::Monday]).on(&weekend);
    assert_eq!(again, office.clone().on(&weekend));
    assert_eq!(
        again,
        office
            .clone()
            .on(&[Weekday::Sunday, Weekday::Saturday, Weekday::Sunday])
    );
    assert_ne!(again, office.clone().on(&[Weekday::Saturday]));
    assert_ne!(again, office);
    assert_eq!(again.to_string(), "08:00-17:00");
}
