use std::collections::VecDeque;

use rahgozar::config::{DEFAULT_LOG_COLOR_ERROR, DEFAULT_LOG_COLOR_INFO, DEFAULT_LOG_COLOR_WARN};
use rahgozar::log_filter::{apply_log_level, choose_reload, choose_startup, startup_filter};
use rahgozar::log_view::{
    choose_color, classify_log_line, color_to_hex, fmt_bytes, fmt_duration, fmt_megabytes, line_color, log_lines,
    normalize_log_color, parse_hex_color, push_log, LogLevel, Rgb, LOG_MAX,
};

#[test]
fn normalize_log_color_canonicalizes_and_heals() {
    assert_eq!(normalize_log_color("#abcdef", "#dc6e6e"), "#abcdef");
    assert_eq!(normalize_log_color("", "#dc6e6e"), "#dc6e6e");
    assert_eq!(normalize_log_color("red", "#dc6e6e"), "#dc6e6e");
    assert_eq!(normalize_log_color("#12345", "#dc6e6e"), "#dc6e6e");
    assert_eq!(normalize_log_color("#ABCDEF", "#dc6e6e"), "#abcdef");
    assert_eq!(normalize_log_color("  #abcdef  ", "#dc6e6e"), "#abcdef",);
    assert_eq!(normalize_log_color("abcdef", "#dc6e6e"), "#abcdef");
    assert_eq!(normalize_log_color("##abcdef", "#dc6e6e"), "#dc6e6e");
    assert_eq!(normalize_log_color("#abcdefXX", "#dc6e6e"), "#dc6e6e");
}

#[test]
fn parse_hex_color_rejects_garbage() {
    assert!(parse_hex_color("").is_none());
    assert!(parse_hex_color("not a color").is_none());
    assert!(parse_hex_color("#12345").is_none());
    assert!(parse_hex_color("#1234567").is_none());
    assert!(parse_hex_color("#gghhii").is_none());
    assert!(parse_hex_color("##abcdef").is_none());
    assert!(parse_hex_color("###abcdef").is_none());
    assert!(parse_hex_color("abcdef").is_some());
    assert!(parse_hex_color(DEFAULT_LOG_COLOR_INFO).is_some());
    assert!(parse_hex_color(DEFAULT_LOG_COLOR_WARN).is_some());
    assert!(parse_hex_color(DEFAULT_LOG_COLOR_ERROR).is_some());
}

#[test]
fn log_level_classifier_matches_leftmost_word_boundary() {
    assert_eq!(
        classify_log_line("2025-05-16T10:00:00Z  INFO  starting up"),
        Some(LogLevel::Info),
    );
    assert_eq!(
        classify_log_line("2025-05-16T10:00:00Z  WARN  rate limit"),
        Some(LogLevel::Warn),
    );
    assert_eq!(
        classify_log_line("2025-05-16T10:00:00Z ERROR  fatal"),
        Some(LogLevel::Error),
    );
    assert_eq!(classify_log_line("debug: INFOrmation logged"), None);
    assert_eq!(classify_log_line("DEBUG step"), None);
    assert_eq!(
        classify_log_line("2025-05-16T10:00:00Z  INFO  got ERROR response from upstream"),
        Some(LogLevel::Info),
        "INFO line mentioning ' ERROR ' must stay INFO",
    );
    assert_eq!(
        classify_log_line("2025-05-16T10:00:00Z  WARN  prior INFO event was suspicious"),
        Some(LogLevel::Warn),
        "WARN line mentioning ' INFO ' must stay WARN",
    );
    assert_eq!(
        classify_log_line("2025-05-16T10:00:00Z ERROR  saw earlier WARN and INFO too"),
        Some(LogLevel::Error),
        "ERROR line mentioning ' WARN ' / ' INFO ' must stay ERROR",
    );
}

#[test]
fn colors_read_back() {
    let c = Rgb {
        r: 0xab,
        g: 0x01,
        b: 0xff,
    };
    assert_eq!(color_to_hex(c), "#ab01ff");
    assert_eq!(parse_hex_color("#ab01ff"), Some(c));
    let fallback = Rgb { r: 1, g: 2, b: 3 };
    assert_eq!(choose_color("nonsense", fallback), fallback);
    assert_eq!(choose_color("#ab01ff", fallback), c);
}

#[test]
fn the_log_keeps_the_latest_lines() {
    let mut log: VecDeque<String> = VecDeque::new();
    for i in 0..LOG_MAX + 5 {
        push_log(&mut log, format!("line {i}"));
    }
    assert_eq!(log.len(), LOG_MAX);
    assert_eq!(log[0], "line 5");
    assert_eq!(log[LOG_MAX - 1], format!("line {}", LOG_MAX + 4));
}

#[test]
fn chunks_are_cut_into_lines() {
    assert_eq!(log_lines("a\r\n\nb  \n\n"), vec!["a", "b"]);
    assert!(log_lines(" \n\t").is_empty());
}

#[test]
fn durations_and_sizes_are_written_out() {
    assert_eq!(fmt_duration(0), "00:00:00");
    assert_eq!(fmt_duration(3661), "01:01:01");
    assert_eq!(fmt_duration(360000), "100:00:00");
    for b in [
        0u64,
        1023,
        1024,
        1536,
        1075,
        1048575,
        1048576,
        1572864,
        1073741824,
        1610612736,
        123456789012,
        u64::MAX,
    ] {
        let expected = if b >= 1 << 30 {
            format!("{:.2} GB", b as f64 / (1u64 << 30) as f64)
        } else if b >= 1 << 20 {
            format!("{:.2} MB", b as f64 / (1u64 << 20) as f64)
        } else if b >= 1 << 10 {
            format!("{:.1} KB", b as f64 / 1024.0)
        } else {
            format!("{} B", b)
        };
        assert_eq!(fmt_bytes(b), expected);
    }
}

#[test]
fn filters_follow_their_precedence() {
    assert_eq!(startup_filter(Some("debug"), "warn"), "debug");
    assert_eq!(startup_filter(None, "  warn "), "warn");
    assert_eq!(startup_filter(None, "   "), "info,hyper=warn");
    assert_eq!(startup_filter(None, "a=b=c=d"), "info,hyper=warn");
    assert_eq!(startup_filter(Some("a=b=c=d"), "trace"), "trace");
    assert_eq!(choose_startup(Some("x"), false, "y", true), "y");
    assert_eq!(choose_startup(None, false, "y", false), "info,hyper=warn");
    assert_eq!(apply_log_level(true, "debug"), None);
    assert_eq!(apply_log_level(false, " debug "), Some("debug".to_string()));
    assert_eq!(apply_log_level(false, ""), Some("info,hyper=warn".to_string()));
    assert_eq!(apply_log_level(false, "a=b=c=d"), None);
    assert_eq!(startup_filter(None, "info,\u{a0}x=debug"), "info,hyper=warn");
    assert_eq!(startup_filter(None, "x, \u{e9}"), "x, \u{e9}");
    assert_eq!(apply_log_level(false, "x, \u{e9}"), Some("x, \u{e9}".to_string()));
    assert_eq!(startup_filter(None, "x,  [\u{e9}]"), "x,  [\u{e9}]");
    assert_eq!(startup_filter(None, "x, \u{e9}=debug"), "info,hyper=warn");
    assert_eq!(apply_log_level(false, "x, \u{e9}=debug"), None);
    assert_eq!(choose_reload(false, "x", false), None);
    assert_eq!(choose_reload(false, "x", true), Some("x".to_string()));
}

#[test]
fn megabytes_are_rounded_to_a_tenth() {
    assert_eq!(fmt_megabytes(0), "0.0 MB");
    assert_eq!(fmt_megabytes(0x10_0000), "1.0 MB");
    assert_eq!(fmt_megabytes(0x18_0000), "1.5 MB");
    for b in [1u64, 52_429, 157_286, 1_000_000, 123_456_789, u64::MAX] {
        assert_eq!(fmt_megabytes(b), format!("{:.1} MB", b as f64 / (1024.0 * 1024.0)));
    }
}

#[test]
fn a_line_takes_the_colour_of_its_level() {
    let d = Rgb { r: 1, g: 2, b: 3 };
    let of = |line: &str| line_color(line, "#010000", "oops", "#000003", d, d, d);
    assert_eq!(of("12:00 INFO up"), Some(Rgb { r: 1, g: 0, b: 0 }));
    assert_eq!(of("12:00 WARN slow"), Some(d));
    assert_eq!(of("12:00 ERROR down"), Some(Rgb { r: 0, g: 0, b: 3 }));
    assert_eq!(of("nothing"), None);
}
