//! Calendar validity rules, the clock-backed current date, and the texts of
//! the documentation links.
use egui_web_template::Date;
use egui_web_template::current_date;
use egui_web_template::days_in_month;
use egui_web_template::doc_link_label;
use egui_web_template::doc_link_label_with_crate;
use egui_web_template::is_leap_year;

#[test]
fn leap_year_rules() {
    assert!(is_leap_year(2024));
    assert!(is_leap_year(2000));
    assert!(is_leap_year(400));
    assert!(!is_leap_year(1900));
    assert!(!is_leap_year(2023));
    assert!(!is_leap_year(100));
}

#[test]
fn month_lengths() {
    assert_eq!(days_in_month(2023, 1), 31);
    assert_eq!(days_in_month(2023, 2), 28);
    assert_eq!(days_in_month(2024, 2), 29);
    assert_eq!(days_in_month(1900, 2), 28);
    assert_eq!(days_in_month(2000, 2), 29);
    assert_eq!(days_in_month(2023, 4), 30);
    assert_eq!(days_in_month(2023, 12), 31);
    assert_eq!(days_in_month(2023, 0), 0);
    assert_eq!(days_in_month(2023, 13), 0);
}

#[test]
fn date_validation() {
    assert!(Date::from_ymd(2024, 2, 29).is_some());
    assert!(Date::from_ymd(2023, 2, 29).is_none());
    assert!(Date::from_ymd(2023, 4, 31).is_none());
    assert!(Date::from_ymd(2023, 13, 1).is_none());
    assert!(Date::from_ymd(2023, 0, 1).is_none());
    assert!(Date::from_ymd(2023, 1, 0).is_none());
    assert!(Date::from_ymd(2023, 12, 31).is_some());
    let d = Date::from_ymd(-44, 3, 15).unwrap();
    assert_eq!(d.year(), -44);
    assert_eq!(d.month(), 3);
    assert_eq!(d.day(), 15);
}

#[test]
fn the_clock_gives_a_real_date() {
    let d = current_date().unwrap();
    assert!((1..=12).contains(&d.month()));
    assert!((1..=31).contains(&d.day()));
    assert!(d.day() <= days_in_month(d.year(), d.month()));
    // Anyone running this is well past the epoch of this library's birth.
    assert!(d.year() >= 2024);
}

#[test]
fn doc_link_texts() {
    let (label, url) = doc_link_label("Slider", "Slider");
    assert_eq!(label, "Slider:");
    assert_eq!(url, "https://docs.rs/egui?search=Slider");
    let (label, url) = doc_link_label_with_crate("egui_plot", "Plot", "plot");
    assert_eq!(label, "Plot:");
    assert_eq!(url, "https://docs.rs/egui_plot?search=plot");
}
