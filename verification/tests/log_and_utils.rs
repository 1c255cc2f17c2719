use pge::log::color::Colors;
use pge::log::{LogLevel, Logger};
use pge::utils::color::rgb::RgbColor;
use pge::utils::decimal::{append_decimal, append_signed};
use pge::utils::time::get_time;

#[test]
fn default_colors_by_level() {
    let colors = Colors::new();
    assert_eq!(colors.get_color(0), 37);
    assert_eq!(colors.get_color(1), 32);
    assert_eq!(colors.get_color(2), 33);
    assert_eq!(colors.get_color(3), 31);
    assert_eq!(colors.get_color(4), 0);
}

#[test]
fn set_color_changes_one_code() {
    let mut colors = Colors::new();
    colors.set_color(2, 35);
    assert_eq!(colors.get_color(0), 37);
    assert_eq!(colors.get_color(1), 32);
    assert_eq!(colors.get_color(2), 35);
    assert_eq!(colors.get_color(3), 31);
    assert_eq!(colors.get_color(4), 0);
    colors.set_color(4, -1);
    assert_eq!(colors.get_color(4), -1);
    assert_eq!(colors.get_color(2), 35);
}

#[test]
fn levels_have_their_slots() {
    assert_eq!(LogLevel::TRACE.slot(), 0);
    assert_eq!(LogLevel::INFO.slot(), 1);
    assert_eq!(LogLevel::WARN.slot(), 2);
    assert_eq!(LogLevel::ERROR.slot(), 3);
    assert_eq!(LogLevel::FATAL.slot(), 3);
}

#[test]
fn logger_starts_with_default_colors() {
    let logger = Logger::new("render".to_string());
    assert_eq!(logger.name(), "render");
    assert_eq!(logger.color_of(LogLevel::TRACE), 37);
    assert_eq!(logger.color_of(LogLevel::INFO), 32);
    assert_eq!(logger.color_of(LogLevel::WARN), 33);
    assert_eq!(logger.color_of(LogLevel::ERROR), 31);
    assert_eq!(logger.color_of(LogLevel::FATAL), 31);
    assert_eq!(logger.reset_color(), 0);
}

#[test]
fn logger_recolors_a_level() {
    let mut logger = Logger::new("audio".to_string());
    logger.set_color(LogLevel::FATAL, 91);
    assert_eq!(logger.color_of(LogLevel::ERROR), 91);
    assert_eq!(logger.color_of(LogLevel::FATAL), 91);
    assert_eq!(logger.color_of(LogLevel::WARN), 33);
    assert_eq!(logger.reset_color(), 0);
    assert_eq!(logger.name(), "audio");
}

#[test]
fn rgb_has_no_opacity_at_first() {
    let c = RgbColor::new(10, 20, 30);
    assert_eq!(c, RgbColor { red: 10, green: 20, blue: 30, alpha: None });
    assert_eq!(c.to_vec(), vec![10, 20, 30]);
    assert_eq!(RgbColor::new(255, 0, 128).to_vec(), vec![255, 0, 128]);
}

#[test]
fn time_of_day_is_not_padded() {
    assert_eq!(get_time(0), "0:0:0");
    assert_eq!(get_time(59), "0:0:59");
    assert_eq!(get_time(60), "0:1:0");
    assert_eq!(get_time(3599), "0:59:59");
    assert_eq!(get_time(3600), "1:0:0");
    assert_eq!(get_time(9 * 3600 + 5 * 60 + 7), "9:5:7");
    assert_eq!(get_time(13 * 3600 + 45 * 60 + 10), "13:45:10");
    assert_eq!(get_time(86399), "23:59:59");
}

#[test]
fn time_of_day_wraps_at_midnight() {
    assert_eq!(get_time(86400), "0:0:0");
    assert_eq!(get_time(86400 * 19000 + 3661), "1:1:1");
    // 2^64 - 1 seconds: 18446744073709551615 = 213503982334601 days + 7:0:15.
    assert_eq!(get_time(u64::MAX), "7:0:15");
}

#[test]
fn line_of_a_message() {
    let logger = Logger::new("PGE".to_string());
    assert_eq!(
        logger.line(LogLevel::INFO, "9:5:7", "\"App is Running\""),
        "\x1B[32m[9:5:7]PGE: \"App is Running\" \x1B[0m"
    );
    assert_eq!(
        logger.line(LogLevel::FATAL, "23:59:59", "Key(Escape)"),
        format!("\x1B[{}m[{}]{}: {} \x1B[{}m", 31, "23:59:59", "PGE", "Key(Escape)", 0)
    );
    assert_eq!(logger.line(LogLevel::TRACE, "", ""), "\x1B[37m[]PGE:  \x1B[0m");
}

#[test]
fn line_with_other_colors() {
    let mut logger = Logger::new(String::new());
    logger.set_color(LogLevel::WARN, -7);
    assert_eq!(logger.line(LogLevel::WARN, "0:0:0", "x"), "\x1B[-7m[0:0:0]: x \x1B[0m");
    logger.set_color(LogLevel::ERROR, i32::MAX);
    assert_eq!(logger.line(LogLevel::ERROR, "t", "c"), "\x1B[2147483647m[t]: c \x1B[0m");
    logger.set_color(LogLevel::TRACE, i32::MIN);
    assert_eq!(logger.line(LogLevel::TRACE, "t", "c"), "\x1B[-2147483648m[t]: c \x1B[0m");
}

#[test]
fn numbers_in_decimal() {
    for n in [0u64, 1, 9, 10, 11, 99, 100, 101, 1234567890, u64::MAX] {
        let mut text = String::from("n=");
        append_decimal(&mut text, n);
        assert_eq!(text, format!("n={}", n));
    }
    for n in [0i32, 1, -1, 9, -9, 10, -10, 12345, -12345, i32::MAX, i32::MIN] {
        let mut text = String::new();
        append_signed(&mut text, n);
        assert_eq!(text, n.to_string());
    }
}
