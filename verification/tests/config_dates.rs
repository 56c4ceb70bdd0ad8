use dir_report::Config;
use dir_report::ReportError;
use dir_report::Timestamp;
use dir_report::config_from_fields;
use dir_report::day_count;
use dir_report::parse_config;
use dir_report::parse_timestamp;
use dir_report::window_days;

fn ts(s: &str) -> Timestamp {
    parse_timestamp(s).unwrap()
}

#[test]
fn parses_a_well_formed_config() {
    let text = "{\"env_start_date\":\"2024-01-01T00:00:00\",\
                \"env_end_date\":\"2024-01-02T03:04:05\",\
                \"directory_to_watch\":\"/tmp/data\"}";
    let config = parse_config(text).unwrap();
    assert_eq!(config.env_start_date, "2024-01-01T00:00:00");
    assert_eq!(config.env_end_date, "2024-01-02T03:04:05");
    assert_eq!(config.directory_to_watch, "/tmp/data");
}

#[test]
fn unknown_fields_are_ignored() {
    let text = "{\"env_start_date\":\"2024-01-01T00:00:00\",\
                \"env_end_date\":\"2024-01-02T03:04:05\",\
                \"directory_to_watch\":\".\",\"extra\":42}";
    assert!(parse_config(text).is_ok());
}

#[test]
fn invalid_json_is_a_parse_error() {
    let r = parse_config("this is not json");
    assert!(matches!(r, Err(ReportError::ConfigParse)));
    let msg = r.unwrap_err().message();
    assert!(msg.starts_with("config-parse"));
}

#[test]
fn missing_field_is_a_shape_error() {
    let text = "{\"env_start_date\":\"2024-01-01T00:00:00\",\
                \"directory_to_watch\":\".\"}";
    let r = parse_config(text);
    match r {
        Err(ReportError::ConfigShape(f)) => assert_eq!(f, "env_end_date"),
        _ => panic!("expected a shape error"),
    }
}

#[test]
fn non_string_field_is_a_shape_error() {
    let text = "{\"env_start_date\":17,\
                \"env_end_date\":\"2024-01-02T03:04:05\",\
                \"directory_to_watch\":\".\"}";
    let r = parse_config(text);
    match r {
        Err(ReportError::ConfigShape(f)) => assert_eq!(f, "env_start_date"),
        _ => panic!("expected a shape error"),
    }
}

#[test]
fn assembling_from_fields_reports_the_first_gap() {
    let r = config_from_fields(Some("a".to_string()), Some("b".to_string()), None);
    match r {
        Err(ReportError::ConfigShape(f)) => assert_eq!(f, "directory_to_watch"),
        _ => panic!("expected a shape error"),
    }
}

#[test]
fn malformed_date_is_a_date_format_error() {
    let config = Config {
        env_start_date: "2024-13-40T00:00:00".to_string(),
        env_end_date: "2024-01-02T00:00:00".to_string(),
        directory_to_watch: ".".to_string(),
    };
    let r = window_days(&config);
    match r {
        Err(ReportError::DateFormat(f)) => {
            assert_eq!(f, "env_start_date");
        },
        _ => panic!("expected a date-format error"),
    }
    let msg = window_days(&config).unwrap_err().message();
    assert!(msg.starts_with("date-format"));
    assert!(msg.contains("env_start_date"));
}

#[test]
fn second_date_is_checked_too() {
    let config = Config {
        env_start_date: "2024-01-02T00:00:00".to_string(),
        env_end_date: "2024-01-02 00:00:00".to_string(),
        directory_to_watch: ".".to_string(),
    };
    match window_days(&config) {
        Err(ReportError::DateFormat(f)) => assert_eq!(f, "env_end_date"),
        _ => panic!("expected a date-format error"),
    }
}

#[test]
fn timestamp_grammar_is_exact() {
    assert!(parse_timestamp("2024-01-01T00:00:00").is_some());
    assert!(parse_timestamp("2024-01-01T23:59:59").is_some());
    assert!(parse_timestamp("0000-01-01T00:00:00").is_some());
    assert!(parse_timestamp("9999-12-31T23:59:59").is_some());
    // wrong length, separators, or digits
    assert!(parse_timestamp("").is_none());
    assert!(parse_timestamp("2024-01-01").is_none());
    assert!(parse_timestamp("2024-01-01T00:00:00Z").is_none());
    assert!(parse_timestamp("2024/01/01T00:00:00").is_none());
    assert!(parse_timestamp("2024-01-01 00:00:00").is_none());
    assert!(parse_timestamp("20x4-01-01T00:00:00").is_none());
    // calendar range checks
    assert!(parse_timestamp("2024-13-40T00:00:00").is_none());
    assert!(parse_timestamp("2024-00-01T00:00:00").is_none());
    assert!(parse_timestamp("2024-01-00T00:00:00").is_none());
    assert!(parse_timestamp("2024-01-32T00:00:00").is_none());
    assert!(parse_timestamp("2024-04-31T00:00:00").is_none());
    assert!(parse_timestamp("2024-01-01T24:00:00").is_none());
    assert!(parse_timestamp("2024-01-01T00:60:00").is_none());
    assert!(parse_timestamp("2024-01-01T00:00:60").is_none());
}

#[test]
fn leap_years_follow_the_gregorian_rule() {
    assert!(parse_timestamp("2024-02-29T12:00:00").is_some());
    assert!(parse_timestamp("2000-02-29T12:00:00").is_some());
    assert!(parse_timestamp("2023-02-29T12:00:00").is_none());
    assert!(parse_timestamp("1900-02-29T12:00:00").is_none());
}

#[test]
fn day_count_truncates_toward_zero() {
    let a = ts("2024-01-01T00:00:00");
    let b = ts("2024-01-10T23:59:59");
    assert_eq!(day_count(&a, &b), 9);
    assert_eq!(day_count(&b, &a), -9);
    let c = ts("2024-01-11T00:00:00");
    assert_eq!(day_count(&a, &c), 10);
    assert_eq!(day_count(&c, &a), -10);
    assert_eq!(day_count(&a, &a), 0);
}

#[test]
fn day_count_crosses_leap_days() {
    assert_eq!(
        day_count(&ts("2024-02-28T00:00:00"), &ts("2024-03-01T00:00:00")),
        2
    );
    assert_eq!(
        day_count(&ts("2023-02-28T00:00:00"), &ts("2023-03-01T00:00:00")),
        1
    );
    assert_eq!(
        day_count(&ts("1900-02-28T00:00:00"), &ts("1900-03-01T00:00:00")),
        1
    );
    assert_eq!(
        day_count(&ts("2000-02-28T00:00:00"), &ts("2000-03-01T00:00:00")),
        2
    );
    assert_eq!(
        day_count(&ts("2023-01-01T00:00:00"), &ts("2024-01-01T00:00:00")),
        365
    );
    assert_eq!(
        day_count(&ts("2024-01-01T00:00:00"), &ts("2025-01-01T00:00:00")),
        366
    );
}

#[test]
fn io_errors_name_their_resource() {
    let io = ReportError::ConfigIo("config.json".to_string());
    assert_eq!(io.message(), "config-io: cannot open or read config.json");
    let open = ReportError::ScanOpen("./data".to_string());
    assert_eq!(open.message(), "scan-open: cannot open directory ./data");
    let entry = ReportError::ScanEntry("./data".to_string());
    assert_eq!(entry.message(), "scan-entry: cannot read an entry of ./data");
}
