use chrono::NaiveDate;
use restaurant_pos::calendar::{Date, DateTime, MAX_YEAR, MIN_YEAR};
use restaurant_pos::menu_keys::{dish_key, dish_key_pattern, dish_key_prefix, menu_key};
use restaurant_pos::text::{int_to_text, text_starts_with};
use restaurant_pos::types::{same_text, ACTIVE_MENU_KEY, MENU_KEY};

fn date(year: i32, month: u32, day: u32) -> Date {
    Date::from_ymd_opt(year, month, day).unwrap()
}

#[test]
fn int_text_is_decimal() {
    assert_eq!(int_to_text(0), "0");
    assert_eq!(int_to_text(7), "7");
    assert_eq!(int_to_text(-7), "-7");
    assert_eq!(int_to_text(10), "10");
    assert_eq!(int_to_text(1005), "1005");
    assert_eq!(int_to_text(-120), "-120");
    assert_eq!(int_to_text(i64::MAX), "9223372036854775807");
    assert_eq!(int_to_text(i64::MIN), "-9223372036854775808");
}

#[test]
fn int_text_agrees_with_std() {
    let mut value: i64 = -5000;
    while value <= 5000 {
        assert_eq!(int_to_text(value), value.to_string());
        value += 7;
    }
}

#[test]
fn starts_with_compares_characters() {
    assert!(text_starts_with("menu_2024-01-01_dish-5", "menu_2024-01-01_"));
    assert!(text_starts_with("menu", "menu"));
    assert!(text_starts_with("menu", ""));
    assert!(!text_starts_with("men", "menu"));
    assert!(!text_starts_with("menu_2024-01-02_dish-5", "menu_2024-01-01_"));
    assert!(text_starts_with("álbum", "ál"));
    assert!(!text_starts_with("album", "ál"));
}

#[test]
fn same_text_compares_characters() {
    assert!(same_text("main", "main"));
    assert!(same_text("", ""));
    assert!(!same_text("main", "mains"));
    assert!(!same_text("main", "Main"));
}

#[test]
fn dates_exist_as_in_the_calendar() {
    assert!(Date::from_ymd_opt(2015, 3, 14).is_some());
    assert!(Date::from_ymd_opt(2015, 0, 14).is_none());
    assert!(Date::from_ymd_opt(2015, 13, 14).is_none());
    assert!(Date::from_ymd_opt(2015, 3, 0).is_none());
    assert!(Date::from_ymd_opt(2015, 2, 29).is_none());
    assert!(Date::from_ymd_opt(2016, 2, 29).is_some());
    assert!(Date::from_ymd_opt(1900, 2, 29).is_none());
    assert!(Date::from_ymd_opt(2000, 2, 29).is_some());
    assert!(Date::from_ymd_opt(-4, 2, 29).is_some());
    assert!(Date::from_ymd_opt(-100, 2, 29).is_none());
    assert!(Date::from_ymd_opt(-400, 2, 29).is_some());
    assert!(Date::from_ymd_opt(2023, 4, 31).is_none());
    assert!(Date::from_ymd_opt(2023, 4, 30).is_some());
    assert!(Date::from_ymd_opt(2023, 12, 31).is_some());
    assert!(Date::from_ymd_opt(2023, 12, 32).is_none());
    assert!(Date::from_ymd_opt(400000, 1, 1).is_none());
    assert!(Date::from_ymd_opt(-400000, 1, 1).is_none());
    assert!(Date::from_ymd_opt(MAX_YEAR, 12, 31).is_some());
    assert!(Date::from_ymd_opt(MAX_YEAR + 1, 1, 1).is_none());
    assert!(Date::from_ymd_opt(MIN_YEAR, 1, 1).is_some());
    assert!(Date::from_ymd_opt(MIN_YEAR - 1, 12, 31).is_none());
}

#[test]
fn date_keeps_its_parts() {
    let day = date(2024, 2, 29);
    assert_eq!(day.year(), 2024);
    assert_eq!(day.month(), 2);
    assert_eq!(day.day(), 29);
    assert_eq!(day, date(2024, 2, 29));
    assert_ne!(day, date(2024, 2, 28));
}

#[test]
fn date_text_has_year_month_day() {
    assert_eq!(date(2024, 3, 9).to_text(), "2024-03-09");
    assert_eq!(date(1999, 12, 31).to_text(), "1999-12-31");
    assert_eq!(date(0, 1, 1).to_text(), "0000-01-01");
    assert_eq!(date(33, 10, 5).to_text(), "0033-10-05");
    assert_eq!(date(9999, 12, 31).to_text(), "9999-12-31");
    assert_eq!(date(10000, 1, 1).to_text(), "+10000-01-01");
    assert_eq!(date(262142, 12, 31).to_text(), "+262142-12-31");
    assert_eq!(date(-1, 12, 31).to_text(), "-0001-12-31");
    assert_eq!(date(-9999, 1, 1).to_text(), "-9999-01-01");
    assert_eq!(date(-10000, 1, 1).to_text(), "-10000-01-01");
    assert_eq!(date(-262143, 1, 1).to_text(), "-262143-01-01");
}

#[test]
fn dates_agree_with_chrono() {
    let years = [
        -262144, -262143, -10001, -10000, -9999, -401, -400, -100, -4, -1, 0, 1, 4, 99, 100,
        400, 999, 1000, 1900, 2000, 2023, 2024, 9999, 10000, 10001, 262142, 262143,
    ];
    for year in years {
        for month in 0..14u32 {
            for day in 0..33u32 {
                let ours = Date::from_ymd_opt(year, month, day);
                let theirs = NaiveDate::from_ymd_opt(year, month, day);
                assert_eq!(ours.is_some(), theirs.is_some());
                if let (Some(ours), Some(theirs)) = (ours, theirs) {
                    assert_eq!(ours.to_text(), theirs.to_string());
                }
            }
        }
    }
}

#[test]
fn keys_are_laid_out_as_stored() {
    assert_eq!(ACTIVE_MENU_KEY, "active-menu");
    assert_eq!(MENU_KEY, "menu");
    let key = menu_key(&date(2024, 3, 9));
    assert_eq!(key, "menu_2024-03-09");
    assert_eq!(dish_key(&key, 17), "menu_2024-03-09_dish-17");
    assert_eq!(dish_key(&key, -3), "menu_2024-03-09_dish--3");
    assert_eq!(dish_key(&key, 0), "menu_2024-03-09_dish-0");
    assert_eq!(dish_key_prefix(&key), "menu_2024-03-09_");
    assert_eq!(dish_key_pattern(&key), "menu_2024-03-09_*");
    assert_eq!(menu_key(&date(12024, 3, 9)), "menu_+12024-03-09");
}

#[test]
fn different_days_have_different_menu_keys() {
    let days = [
        date(2024, 1, 1),
        date(2024, 1, 2),
        date(2024, 1, 11),
        date(2024, 11, 1),
        date(2024, 2, 1),
        date(2023, 1, 1),
        date(12024, 1, 1),
        date(-2024, 1, 1),
    ];
    for a in 0..days.len() {
        for b in 0..days.len() {
            assert_eq!(menu_key(&days[a]) == menu_key(&days[b]), a == b);
            let inside = text_starts_with(
                &dish_key(&menu_key(&days[a]), 5),
                &dish_key_prefix(&menu_key(&days[b])),
            );
            assert_eq!(inside, a == b);
            assert!(!text_starts_with(&menu_key(&days[a]), &dish_key_prefix(&menu_key(&days[b]))));
        }
    }
}

#[test]
fn date_time_is_plain_data() {
    let at = DateTime { date: date(2024, 3, 9), secs: 3600, nano: 5 };
    let copy = at;
    assert_eq!(copy, at);
    assert_eq!(copy.date.to_text(), "2024-03-09");
}
