use dir_report::EntryMeta;
use dir_report::ScanResult;
use dir_report::parse_config;
use dir_report::render_report;
use dir_report::scan_entries;
use dir_report::window_days;

fn file(size: u64) -> EntryMeta {
    EntryMeta { is_file: true, size }
}

fn non_file(size: u64) -> EntryMeta {
    EntryMeta { is_file: false, size }
}

fn config_text(start: &str, end: &str, dir: &str) -> String {
    format!(
        "{{\"env_start_date\":\"{}\",\"env_end_date\":\"{}\",\"directory_to_watch\":\"{}\"}}",
        start, end, dir
    )
}

#[test]
fn empty_directory_ten_days() {
    let text = config_text("2024-01-01T00:00:00", "2024-01-11T00:00:00", "./empty");
    let config = parse_config(&text).unwrap();
    let days = window_days(&config).unwrap();
    assert_eq!(days, 10);
    let entries: Vec<EntryMeta> = Vec::new();
    let scan = scan_entries(&entries);
    assert_eq!(scan.file_count, 0);
    assert_eq!(scan.total_bytes, 0);
    let lines = render_report(days, scan.file_count, scan.total_bytes);
    assert_eq!(lines.len(), 4);
    assert_eq!(lines[0], "Number of days between the dates: 10");
    assert_eq!(lines[1], "Number of files in the directory: 0");
    assert_eq!(lines[2], "Total size of files: 0.00 MB (0.00 GB)");
    assert_eq!(lines[3], "No files found in the directory.");
}

#[test]
fn two_files_one_day() {
    let entries = vec![file(1048576), file(2097152)];
    let scan = scan_entries(&entries);
    assert_eq!(scan.file_count, 2);
    assert_eq!(scan.total_bytes, 3145728);
    let lines = render_report(1, scan.file_count, scan.total_bytes);
    assert_eq!(lines[0], "Number of days between the dates: 1");
    assert_eq!(lines[1], "Number of files in the directory: 2");
    assert_eq!(lines[2], "Total size of files: 3.00 MB (0.00 GB)");
    assert_eq!(
        lines[3],
        "Average file size * Number of days: 1.50 MB-days (0.00 GB-days)"
    );
}

#[test]
fn zero_days_single_small_file() {
    let entries = vec![file(500)];
    let scan = scan_entries(&entries);
    let lines = render_report(0, scan.file_count, scan.total_bytes);
    assert_eq!(lines[0], "Number of days between the dates: 0");
    assert_eq!(lines[1], "Number of files in the directory: 1");
    assert_eq!(lines[2], "Total size of files: 0.00 MB (0.00 GB)");
    assert_eq!(
        lines[3],
        "Average file size * Number of days: 0.00 MB-days (0.00 GB-days)"
    );
}

#[test]
fn inverted_window_empty_directory() {
    let text = config_text("2024-01-11T00:00:00", "2024-01-08T00:00:00", "./empty");
    let config = parse_config(&text).unwrap();
    let days = window_days(&config).unwrap();
    assert_eq!(days, -3);
    let lines = render_report(days, 0, 0);
    assert_eq!(lines[0], "Number of days between the dates: -3");
    assert_eq!(lines[1], "Number of files in the directory: 0");
    assert_eq!(lines[2], "Total size of files: 0.00 MB (0.00 GB)");
    assert_eq!(lines[3], "No files found in the directory.");
}

#[test]
fn non_file_entries_do_not_contribute() {
    let entries = vec![
        non_file(4096),
        file(1000),
        non_file(123456789),
        file(24),
        non_file(7),
    ];
    let scan = scan_entries(&entries);
    assert_eq!(scan.file_count, 2);
    assert_eq!(scan.total_bytes, 1024);
    let only_files = vec![file(1000), file(24)];
    let scan_files: ScanResult = scan_entries(&only_files);
    assert_eq!(scan.file_count, scan_files.file_count);
    assert_eq!(scan.total_bytes, scan_files.total_bytes);
}

#[test]
fn identical_inputs_render_identically() {
    let a = render_report(17, 3, 9999999);
    let b = render_report(17, 3, 9999999);
    assert_eq!(a, b);
}

#[test]
fn average_truncates_before_conversion() {
    // Two files of 1 byte and 2 bytes: the average 1.5 truncates to a whole
    // byte count of 1 before any unit conversion.
    let lines = render_report(1048576, 2, 3);
    assert_eq!(
        lines[3],
        "Average file size * Number of days: 1.00 MB-days (0.00 GB-days)"
    );
}

#[test]
fn negative_days_negate_the_product() {
    let lines = render_report(-1, 1, 1572864);
    assert_eq!(
        lines[3],
        "Average file size * Number of days: -1.50 MB-days (-0.00 GB-days)"
    );
}

#[test]
fn zero_average_with_negative_days_keeps_the_sign() {
    let lines = render_report(-3, 1, 0);
    assert_eq!(
        lines[3],
        "Average file size * Number of days: -0.00 MB-days (-0.00 GB-days)"
    );
}

#[test]
fn total_line_matches_float_formatting() {
    let totals: [u64; 12] = [
        0,
        1,
        500,
        131072,
        393216,
        1048576,
        1572864,
        3145728,
        123456789,
        1073741824,
        10737418240,
        4398046511104,
    ];
    for &b in totals.iter() {
        let lines = render_report(0, 1, b);
        let expected = format!(
            "Total size of files: {:.2} MB ({:.2} GB)",
            b as f64 / (1024.0 * 1024.0),
            b as f64 / (1024.0 * 1024.0 * 1024.0)
        );
        assert_eq!(lines[2], expected);
    }
}

#[test]
fn average_line_matches_float_formatting() {
    let cases: [(i64, u64, u64); 6] = [
        (1, 2, 3145728),
        (10, 3, 1000000),
        (-3, 1, 500),
        (0, 1, 500),
        (365, 2, 2147483649),
        (-400, 4, 123456789),
    ];
    for &(days, count, total) in cases.iter() {
        let lines = render_report(days, count, total);
        let average_size = total as f64 / count as f64;
        let result_mb = (average_size as u64) as f64 / (1024.0 * 1024.0) * days as f64;
        let result_gb = (average_size as u64) as f64 / (1024.0 * 1024.0 * 1024.0) * days as f64;
        let expected = format!(
            "Average file size * Number of days: {:.2} MB-days ({:.2} GB-days)",
            result_mb, result_gb
        );
        assert_eq!(lines[3], expected);
    }
}

#[test]
fn gigabytes_track_megabytes() {
    // The GB figure is the MB figure divided by 1024, up to two-decimal
    // rounding: in hundredths, the scaled figures sit within half a
    // hundredth of each other.
    let totals: [u64; 5] = [0, 1048576, 123456789, 1073741824, 999999999999];
    for &b in totals.iter() {
        let mb_hundredths = ((b as f64 / (1024.0 * 1024.0)) * 100.0).round() as i64;
        let gb_hundredths = ((b as f64 / (1024.0 * 1024.0 * 1024.0)) * 100.0).round() as i64;
        let gap = 1024 * gb_hundredths - mb_hundredths;
        assert!(-512 <= gap && gap <= 512);
    }
}
