//! Computes a four-line storage report for a directory over a time window:
//! the signed whole-day span of the window, the number of regular files
//! directly in the directory, their aggregate size, and the product of the
//! average file size with the day count.

use vstd::prelude::*;

mod config;
mod date;
mod error;
mod report;
mod scan;

pub use config::Config;
pub use config::config_from_fields;
pub use config::parse_config;
pub use date::Timestamp;
pub use date::day_count;
pub use date::lemma_day_count_correct;
pub use date::parse_timestamp;
pub use error::ReportError;
pub use report::lemma_report_deterministic;
pub use report::lemma_unit_consistency;
pub use report::render_report;
pub use report::lemma_empty_report;
pub use scan::EntryMeta;
pub use scan::ScanResult;
pub use scan::lemma_no_regular_files_scans_empty;
pub use scan::lemma_non_file_contributes_nothing;
pub use scan::scan_entries;

verus! {

/// The signed whole-day span of the configured window. The error names the
/// first of the two date fields that is not a `YYYY-MM-DDTHH:MM:SS`
/// timestamp of a real calendar date.
pub fn window_days(config: &Config) -> (r: Result<i64, ReportError>)
    ensures
        r is Ok <==> date::spec_valid_timestamp_str(config.env_start_date@)
            && date::spec_valid_timestamp_str(config.env_end_date@),
        r matches Ok(d) ==> d == date::spec_day_count(
            date::spec_parsed(config.env_start_date@),
            date::spec_parsed(config.env_end_date@),
        ),
        !date::spec_valid_timestamp_str(config.env_start_date@) ==> (r matches Err(
            ReportError::DateFormat(f),
        ) && f@ == "env_start_date"@),
        date::spec_valid_timestamp_str(config.env_start_date@) && !date::spec_valid_timestamp_str(
            config.env_end_date@,
        ) ==> (r matches Err(ReportError::DateFormat(f)) && f@ == "env_end_date"@),
{
    let start = match date::parse_timestamp(config.env_start_date.as_str()) {
        Some(t) => t,
        None => { return Err(ReportError::DateFormat(String::from_str("env_start_date"))) },
    };
    let end = match date::parse_timestamp(config.env_end_date.as_str()) {
        Some(t) => t,
        None => { return Err(ReportError::DateFormat(String::from_str("env_end_date"))) },
    };
    Ok(date::day_count(&start, &end))
}

/// Single-file idempotence: a directory holding exactly one regular file of
/// size `s` scans to a count of one and a total of `s`, the average equals
/// the total, and the report's last line shows that single size times the
/// day count.
pub proof fn lemma_single_file(days: int, s: u64)
    ensures
        scan::spec_file_count(seq![(EntryMeta { is_file: true, size: s })]) == 1,
        scan::spec_total_bytes(seq![(EntryMeta { is_file: true, size: s })]) == s,
        s as int / 1 == s as int,
        report::spec_report(days, 1, s as int)[3] == report::spec_line_avg(days, s as int),
        report::spec_report(days, 1, s as int)[2] == report::spec_line_total(s as int),
{
    let entries = seq![(EntryMeta { is_file: true, size: s })];
    assert(entries.drop_last() =~= Seq::<EntryMeta>::empty());
    assert(scan::spec_file_count(Seq::<EntryMeta>::empty()) == 0);
    assert(scan::spec_total_bytes(Seq::<EntryMeta>::empty()) == 0);
    assert(entries.last() == (EntryMeta { is_file: true, size: s }));
}

} // verus!
