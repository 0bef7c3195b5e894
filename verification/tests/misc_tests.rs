use laesutkontroll::miscellaneous::{fallback_start_at, log_entry_at, minute_text_at};
use laesutkontroll::miscellaneous::{
    clean_csv, config_file_path, csv_file_name, current_time, join_path, log_entry, log_entry_now,
    logger_page_url, login_page_url, read_last_log, timestamp_of_last_line, TimeError, WriteMode,
};

fn is_digit_at(s: &str, i: usize) -> bool {
    s.as_bytes()[i].is_ascii_digit()
}

#[test]
fn write_mode_as_bool() {
    assert!(WriteMode::Append.as_bool());
    assert!(!WriteMode::Overwrite.as_bool());
}

#[test]
fn timestamp_from_line() {
    assert_eq!(
        timestamp_of_last_line(Some("2024-01-31 13:45:00,Temp,21.5")),
        "2024-01-31T13:45:00"
    );
    assert_eq!(timestamp_of_last_line(Some("a b c")), "aTbTc");
    assert_eq!(timestamp_of_last_line(Some(",x")), "");
    assert_eq!(timestamp_of_last_line(Some("")), "");
    assert_eq!(timestamp_of_last_line(None), "");
}

#[test]
fn read_last_log_uses_last_line() {
    assert_eq!(read_last_log(Some("2024-02-01 00:10,S,1")).unwrap(), "2024-02-01T00:10");
}

#[test]
fn read_last_log_falls_back_to_thirty_days_ago() {
    for last in [None, Some(""), Some(",x,y")] {
        let t = read_last_log(last).unwrap();
        assert_eq!(t.len(), 16, "{}", t);
        assert!(t.ends_with("T00:00"));
        assert_eq!(&t[4..5], "-");
        assert_eq!(&t[7..8], "-");
        assert!(is_digit_at(&t, 0) && is_digit_at(&t, 5) && is_digit_at(&t, 8));
    }
}

#[test]
fn time_error_message() {
    assert_eq!(TimeError::OutOfRange.message(), "time out of range");
}

#[test]
fn current_time_shape() {
    let t = current_time();
    assert_eq!(t.len(), 16);
    assert_eq!(&t[10..11], "T");
    assert_eq!(&t[13..14], ":");
}

#[test]
fn clean_csv_drops_headers_and_ends_lines() {
    assert_eq!(
        clean_csv("Zeit,Name,Wert\n2024-01-01 00:00,S,1\n2024-01-01 00:10,S,2"),
        "2024-01-01 00:00,S,1\n2024-01-01 00:10,S,2\n"
    );
    assert_eq!(clean_csv("a\r\nZeit,Name,Wert\r\nb\n"), "a\nb\n");
    assert_eq!(clean_csv(""), "");
    assert_eq!(clean_csv("Zeit,Name,Wert"), "");
    assert_eq!(clean_csv("\n\n"), "\n\n");
    assert_eq!(clean_csv(" Zeit,Name,Wert\n"), " Zeit,Name,Wert\n");
}

#[test]
fn clean_csv_twice() {
    let once = clean_csv("Zeit,Name,Wert\nx,1\n\ny,2");
    assert_eq!(clean_csv(&once), once);
}

#[test]
fn log_entries() {
    assert_eq!(log_entry("2024.01.31 13:45:07", "INFO start"), "\n2024.01.31 13:45:07 INFO start");
    let e = log_entry_now("ERROR x");
    assert!(e.starts_with('\n'));
    assert!(e.ends_with(" ERROR x"));
    assert_eq!(e.len(), 1 + 19 + 1 + 7);
    assert_eq!(&e[5..6], ".");
}

#[test]
fn paths_and_urls() {
    assert_eq!(join_path("logs/", "log.txt"), "logs//log.txt");
    assert_eq!(csv_file_name("sensor_1"), "sensor_1.csv");
    assert_eq!(config_file_path("/opt/bin", "laesutkontroll"), "/opt/bin/config_laesutkontroll.txt");
    assert_eq!(login_page_url("10.0.0.2"), "http://10.0.0.2/accounts/m_login/");
    assert_eq!(logger_page_url("10.0.0.2"), "http://10.0.0.2/m_logger/1/");
}

#[test]
fn minute_text_of_an_instant() {
    assert_eq!(minute_text_at(0, 0, 0).unwrap(), "1970-01-01T00:00");
    assert_eq!(minute_text_at(1706708700, 0, 0).unwrap(), "2024-01-31T13:45");
    assert_eq!(minute_text_at(1706708700, 0, 3600).unwrap(), "2024-01-31T14:45");
    assert_eq!(minute_text_at(0, 0, -3600).unwrap(), "1969-12-31T23:00");
    assert!(minute_text_at(0, 0, 86_400).is_none());
}

#[test]
fn fallback_start_is_midnight_thirty_days_earlier() {
    // 2024-03-01T13:45:00Z; thirty days earlier is 2024-01-31T13:45:00Z.
    assert_eq!(fallback_start_at(1709300700, 5, Some(0)).unwrap(), "2024-01-31T00:00");
    assert_eq!(fallback_start_at(1709300700, 5, Some(12 * 3600)).unwrap(), "2024-02-01T00:00");
    assert!(fallback_start_at(1709300700, 5, None).is_none());
}

#[test]
fn log_entry_of_an_instant() {
    assert_eq!(log_entry_at(1706708707, 0, 0, "INFO x").unwrap(), "\n2024.01.31 13:45:07 INFO x");
    assert!(log_entry_at(0, 0, -86_400, "x").is_none());
}
