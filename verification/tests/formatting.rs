use animedl::applog::{copy_text, filter_entries, format_log_line, AppLog, LogEntry, LogLevel, LogSource};
use animedl::naming::{
    build_filename, format_eta, format_timestamp, host_from_url, sanitize_path_segment, truncate_str,
};

fn entry(ts: u64, source: LogSource, level: LogLevel, message: &str) -> LogEntry {
    LogEntry { ts, source, level, message: message.to_string() }
}

#[test]
fn eta_is_written_in_the_largest_unit() {
    assert_eq!(format_eta(0), "—");
    assert_eq!(format_eta(45), "45s");
    assert_eq!(format_eta(125), "2m05");
    assert_eq!(format_eta(3725), "1h02");
}

#[test]
fn timestamp_is_a_clock_time() {
    assert_eq!(format_timestamp(3661), "01:01:01");
    assert_eq!(format_timestamp(86400 + 3661), "01:01:01");
    assert_eq!(format_timestamp(0), "00:00:00");
}

#[test]
fn path_segments_are_made_safe() {
    assert_eq!(sanitize_path_segment("a/b:c"), "a_b_c");
    assert_eq!(sanitize_path_segment("  ..name.. "), "name");
    assert_eq!(sanitize_path_segment("..."), "_");
    assert_eq!(sanitize_path_segment("ok?\u{1}"), "ok__");
}

#[test]
fn file_names_follow_the_naming_format() {
    assert_eq!(build_filename("plex", "Show", 0, 1, "Ep: One", "vo"), "Show - S01E02 - Ep_ One [VO].mp4");
    assert_eq!(build_filename("simple", "Show", 0, 1, "Ep: One", "vo"), "Ep_ One.mp4");
}

#[test]
fn host_labels_are_the_second_level_domain() {
    assert_eq!(host_from_url("https://video.sibnet.ru/shell.php?v=1"), "sibnet");
    assert_eq!(host_from_url("http://vidmoly.to/embed"), "vidmoly");
    assert_eq!(host_from_url("localhost"), "localhost");
}

#[test]
fn long_text_is_cut_at_a_character() {
    assert_eq!(truncate_str("hello", 10), "hello");
    assert_eq!(truncate_str("hello world", 5), "hello…");
    assert_eq!(truncate_str("éé", 3), "é…");
    assert_eq!(truncate_str("éé", 1), "…");
}

#[test]
fn log_lines_pad_source_and_level() {
    let e = entry(3661, LogSource::App, LogLevel::Info, "hi");
    assert_eq!(format_log_line(&e), "01:01:01  [app    /info ] hi");
    let e = entry(0, LogSource::Sidecar, LogLevel::Error, "boom");
    assert_eq!(format_log_line(&e), "00:00:00  [sidecar/err  ] boom");
}

#[test]
fn log_keeps_the_most_recent_entries() {
    let mut log = AppLog::new(2);
    log.push(entry(1, LogSource::App, LogLevel::Info, "a"));
    log.push(entry(2, LogSource::App, LogLevel::Info, "b"));
    log.push(entry(3, LogSource::Python, LogLevel::Warn, "c"));
    let snap = log.snapshot();
    assert_eq!(log.len(), 2);
    assert_eq!(snap[0].message, "b");
    assert_eq!(snap[1].message, "c");
    log.clear();
    assert_eq!(log.len(), 0);
}

#[test]
fn logs_page_filters_by_source_level_and_text() {
    let es = vec![
        entry(1, LogSource::App, LogLevel::Info, "Download started"),
        entry(2, LogSource::Sidecar, LogLevel::Warn, "cf refresh"),
        entry(3, LogSource::App, LogLevel::Error, "download FAILED"),
    ];
    assert_eq!(filter_entries(&es, None, None, ""), vec![0, 1, 2]);
    assert_eq!(filter_entries(&es, Some(LogSource::App), None, ""), vec![0, 2]);
    assert_eq!(filter_entries(&es, None, Some(LogLevel::Warn), ""), vec![1]);
    assert_eq!(filter_entries(&es, None, None, "download"), vec![0, 2]);
    assert_eq!(filter_entries(&es, Some(LogSource::Sidecar), None, "download"), Vec::<usize>::new());
}

#[test]
fn logs_page_copies_one_line_per_entry() {
    let es = vec![entry(1, LogSource::App, LogLevel::Info, "a"), entry(2, LogSource::Python, LogLevel::Warn, "b")];
    assert_eq!(copy_text(&es), "00:00:01  [app    /info ] a\n00:00:02  [py     /warn ] b");
    assert_eq!(copy_text(&Vec::new()), "");
}
