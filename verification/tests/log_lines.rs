use reminder_cli::logger::{format_line, LogLevel, Logger, MAX_LOG_SIZE};

fn logger() -> Logger {
    Logger::new("/data/reminder.log".to_string(), "/data/reminder.log.old".to_string())
}

fn lines(of: &[&str]) -> Vec<String> {
    of.iter().map(|s| s.to_string()).collect()
}

#[test]
fn log_line_has_stamp_level_and_message() {
    assert_eq!(
        format_line("2025-01-01 00:00:00.000", LogLevel::Info, "Added reminder"),
        "[2025-01-01 00:00:00.000] [INFO] Added reminder"
    );
    assert_eq!(format_line("", LogLevel::Warn, ""), "[] [WARN] ");
    assert_eq!(LogLevel::Debug.label(), "DEBUG");
    assert_eq!(LogLevel::Error.label(), "ERROR");
}

fn check(line: &str, level: &str, message: &str) {
    // [YYYY-MM-DD HH:MM:SS.mmm] [LEVEL] message
    assert!(line.starts_with('['), "{}", line);
    let stamp = &line[1..24];
    assert!(
        chrono::NaiveDateTime::parse_from_str(stamp, "%Y-%m-%d %H:%M:%S%.3f").is_ok(),
        "{}",
        line
    );
    assert_eq!(&line[24..], format!("] [{}] {}", level, message));
}

#[test]
fn lines_are_stamped_with_local_time() {
    let log = logger();
    check(&log.info("started"), "INFO", "started");
    check(&log.warn("careful"), "WARN", "careful");
    check(&log.error("broken"), "ERROR", "broken");
    check(&log.debug("detail"), "DEBUG", "detail");
    check(&log.log(LogLevel::Info, "[x] y"), "INFO", "[x] y");
    assert_eq!(log.path(), "/data/reminder.log");
    assert_eq!(log.old_path, "/data/reminder.log.old");
}

#[test]
fn overgrown_log_is_put_aside() {
    let log = logger();
    assert_eq!(MAX_LOG_SIZE, 1024 * 1024);
    assert!(!log.rotate_if_needed(None));
    assert!(!log.rotate_if_needed(Some(0)));
    assert!(!log.rotate_if_needed(Some(MAX_LOG_SIZE - 1)));
    assert!(log.rotate_if_needed(Some(MAX_LOG_SIZE)));
    assert!(log.rotate_if_needed(Some(u64::MAX)));
}

#[test]
fn tail_gives_the_last_lines() {
    let log = logger();
    assert_eq!(log.tail(lines(&["a", "b", "c"]), 2), lines(&["b", "c"]));
    assert_eq!(log.tail(lines(&["a", "b", "c"]), 3), lines(&["a", "b", "c"]));
    assert_eq!(log.tail(lines(&["a", "b", "c"]), 50), lines(&["a", "b", "c"]));
    assert_eq!(log.tail(lines(&["a", "b", "c"]), 0), lines(&[]));
    assert_eq!(log.tail(vec![], 5), lines(&[]));
}
