use logic_tracer::util::terminal::{color_from, set_bg, set_fg, Color};
use logic_tracer::util::text::{chars_of, same_text, string_from_chars};
use logic_tracer::util::{
    calculate_hour_minute_second, calculate_year_month_day, days_in_month, days_in_year,
    is_leap_year, level_color, log_time, LogLevel, LOG_OFFSET, SECONDS_IN_A_DAY,
};

#[test]
fn leap_years_follow_the_gregorian_rule() {
    assert_eq!(is_leap_year(1970), false);
    assert_eq!(is_leap_year(1971), false);
    assert_eq!(is_leap_year(1972), true);
    assert_eq!(is_leap_year(1975), false);
    assert_eq!(is_leap_year(1976), true);
    assert_eq!(is_leap_year(1900), false);
    assert_eq!(is_leap_year(2000), true);
    assert_eq!(is_leap_year(2100), false);
}

#[test]
fn years_have_365_or_366_days() {
    assert_eq!(days_in_year(1970), 365);
    assert_eq!(days_in_year(1971), 365);
    assert_eq!(days_in_year(1972), 366);
    assert_eq!(days_in_year(1975), 365);
    assert_eq!(days_in_year(1976), 366);
    assert_eq!(days_in_year(1900), 365);
    assert_eq!(days_in_year(2000), 366);
}

#[test]
fn months_have_their_lengths() {
    assert_eq!(days_in_month(1970, 1), 31);
    assert_eq!(days_in_month(1970, 2), 28);
    assert_eq!(days_in_month(1972, 2), 29);
    assert_eq!(days_in_month(1970, 4), 30);
    assert_eq!(days_in_month(1970, 6), 30);
    assert_eq!(days_in_month(1970, 9), 30);
    assert_eq!(days_in_month(1970, 11), 30);
    assert_eq!(days_in_month(1970, 12), 31);
    assert_eq!(days_in_month(1970, 13), 0);
    assert_eq!(days_in_month(1970, 0), 0);
    let mut total = 0;
    for month in 1..=12 {
        total += days_in_month(2000, month);
    }
    assert_eq!(total, days_in_year(2000));
}

#[test]
fn seconds_split_into_days_and_time_of_day() {
    assert_eq!(calculate_hour_minute_second(0), (0, 0, 0, 0));
    assert_eq!(calculate_hour_minute_second(1), (0, 0, 0, 1));
    assert_eq!(calculate_hour_minute_second(60), (0, 0, 1, 0));
    assert_eq!(calculate_hour_minute_second(3600), (0, 1, 0, 0));
    assert_eq!(calculate_hour_minute_second(86400), (1, 0, 0, 0));
    assert_eq!(calculate_hour_minute_second(90061), (1, 1, 1, 1));
    assert_eq!(calculate_hour_minute_second(86399), (0, 23, 59, 59));
    assert_eq!(
        calculate_hour_minute_second(u64::MAX),
        (213503982334601, 7, 0, 15)
    );
    assert_eq!(SECONDS_IN_A_DAY, 86400);
}

#[test]
fn days_become_dates() {
    assert_eq!(calculate_year_month_day(0), (1970, 1, 1));
    assert_eq!(calculate_year_month_day(1), (1970, 1, 2));
    assert_eq!(calculate_year_month_day(30), (1970, 1, 31));
    assert_eq!(calculate_year_month_day(31), (1970, 2, 1));
    assert_eq!(calculate_year_month_day(58), (1970, 2, 28));
    assert_eq!(calculate_year_month_day(59), (1970, 3, 1));
    assert_eq!(calculate_year_month_day(364), (1970, 12, 31));
    assert_eq!(calculate_year_month_day(365), (1971, 1, 1));
    assert_eq!(calculate_year_month_day(366), (1971, 1, 2));
    assert_eq!(calculate_year_month_day(11016), (2000, 2, 29));
    assert_eq!(calculate_year_month_day(11017), (2000, 3, 1));
    assert_eq!(calculate_year_month_day(20754), (2026, 10, 28));
}

#[test]
fn log_records_are_dated_six_hours_back() {
    assert_eq!(LOG_OFFSET, 6 * 3600);
    assert_eq!(log_time(21600), (1970, 1, 1, 0, 0, 0));
    assert_eq!(log_time(21600 + 86400 + 3661), (1970, 1, 2, 1, 1, 1));
    assert_eq!(log_time(1609459200), (2020, 12, 31, 18, 0, 0));
}

#[test]
fn levels_have_their_colours() {
    assert_eq!(level_color(LogLevel::Trace), "36");
    assert_eq!(level_color(LogLevel::Debug), "34");
    assert_eq!(level_color(LogLevel::Info), "32");
    assert_eq!(level_color(LogLevel::Warn), "33");
    assert_eq!(level_color(LogLevel::Error), "31");
}

#[test]
fn foreground_is_set_by_escape_sequences() {
    assert_eq!(set_fg("AST", "g"), "\x1b[32mAST\x1b[0m");
    assert_eq!(set_fg("AST", "green"), "\x1b[32mAST\x1b[0m");
    assert_eq!(set_fg("x", "r"), "\x1b[31mx\x1b[0m");
    assert_eq!(set_fg("x", "red"), "\x1b[31mx\x1b[0m");
    assert_eq!(set_fg("x", "b"), "\x1b[34mx\x1b[0m");
    assert_eq!(set_fg("x", "blue"), "\x1b[34mx\x1b[0m");
    assert_eq!(set_fg("x", "c"), "\x1b[36mx\x1b[0m");
    assert_eq!(set_fg("x", "cyan"), "\x1b[36mx\x1b[0m");
    assert_eq!(set_fg("x", "m"), "\x1b[35mx\x1b[0m");
    assert_eq!(set_fg("x", "magenta"), "\x1b[35mx\x1b[0m");
    assert_eq!(set_fg("x", "y"), "\x1b[33mx\x1b[0m");
    assert_eq!(set_fg("x", "yellow"), "\x1b[33mx\x1b[0m");
    assert_eq!(set_fg("", "y"), "\x1b[33m\x1b[0m");
}

#[test]
fn unknown_colour_leaves_the_text_as_it_is() {
    assert_eq!(set_fg("text", "purple"), "text");
    assert_eq!(set_fg("text", ""), "text");
    assert_eq!(set_fg("text", "R"), "text");
    assert_eq!(set_fg("text", "re"), "text");
    assert_eq!(set_bg("text", "white"), "text");
}

#[test]
fn background_is_set_by_escape_sequences() {
    assert_eq!(set_bg("x", "r"), "\x1b[41mx\x1b[0m");
    assert_eq!(set_bg("x", "green"), "\x1b[42mx\x1b[0m");
    assert_eq!(set_bg("x", "b"), "\x1b[44mx\x1b[0m");
    assert_eq!(set_bg("x", "cyan"), "\x1b[46mx\x1b[0m");
    assert_eq!(set_bg("x", "m"), "\x1b[45mx\x1b[0m");
    assert_eq!(set_bg("x", "yellow"), "\x1b[43mx\x1b[0m");
}

#[test]
fn colours_are_read_by_name() {
    assert_eq!(color_from("r"), Some(Color::Red));
    assert_eq!(color_from("green"), Some(Color::Green));
    assert_eq!(color_from("b"), Some(Color::Blue));
    assert_eq!(color_from("cyan"), Some(Color::Cyan));
    assert_eq!(color_from("m"), Some(Color::Magenta));
    assert_eq!(color_from("yellow"), Some(Color::Yellow));
    assert_eq!(color_from("grey"), None);
}

#[test]
fn texts_are_compared_and_taken_apart() {
    assert!(same_text("abc", "abc"));
    assert!(same_text("", ""));
    assert!(!same_text("abc", "abd"));
    assert!(!same_text("abc", "ab"));
    assert!(!same_text("", "a"));
    assert_eq!(chars_of("a\u{3c0}b"), vec!['a', '\u{3c0}', 'b']);
    assert_eq!(chars_of(""), Vec::<char>::new());
    assert_eq!(string_from_chars(&['a', '\u{3c0}', 'b']), "a\u{3c0}b");
    assert_eq!(string_from_chars(&[]), "");
}
