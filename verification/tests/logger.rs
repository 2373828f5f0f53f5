use log::LevelFilter;
use oracle_sync::logger::{
    accepts_target, contains_text, format_line, format_line_now, log_file_name, Cleanup, LogFile,
    Logger, FILE_STAMP, LINE_STAMP, LOG_DIR, MAX_AGE, MAX_TOTAL, TARGET_WORD,
};

const DAY: u128 = 24 * 60 * 60 * 1_000_000_000;
const NOW: u128 = 400 * DAY;

fn file(age: u128, size: u64) -> LogFile {
    LogFile { is_file: true, modified: NOW - age, size }
}

fn plan(entries: &[LogFile]) -> Cleanup {
    Logger::new(LevelFilter::Info).clean_logs(&entries.to_vec(), NOW)
}

fn keep_all() -> Cleanup {
    Cleanup { expired: vec![], evict: None, clock_fault: None, report_to_log: false }
}

#[test]
fn a_new_logger_has_not_started() {
    let logger = Logger::new(LevelFilter::Trace);
    assert!(!logger.is_started());
    assert_eq!(logger.file(), None);
    assert_eq!(logger.level(), LevelFilter::Trace);
    assert_eq!(Logger::new(LevelFilter::Warn).level(), LevelFilter::Warn);
}

#[test]
fn start_takes_effect_once() {
    let mut logger = Logger::new(LevelFilter::Debug);
    assert!(logger.start("logs/a.log".to_string()));
    assert!(logger.is_started());
    assert_eq!(logger.file(), Some("logs/a.log".to_string()));
    assert!(!logger.start("logs/b.log".to_string()));
    assert!(logger.is_started());
    assert_eq!(logger.file(), Some("logs/a.log".to_string()));
    assert_eq!(logger.level(), LevelFilter::Debug);
}

#[test]
fn only_a_logger_that_has_not_started_opens_a_file() {
    let mut logger = Logger::new(LevelFilter::Info);
    let name = logger.next_file().unwrap();
    assert!(name.starts_with("logs/"));
    assert!(name.ends_with(".log"));
    assert_eq!(name.len(), "logs/2024-01-01_00-00-00.log".len());
    logger.start(name);
    assert_eq!(logger.next_file(), None);
}

#[test]
fn a_log_file_is_named_after_its_time() {
    assert_eq!(log_file_name("2024-03-09_17-05-00"), "logs/2024-03-09_17-05-00.log");
    assert_eq!(log_file_name(""), "logs/.log");
    assert_eq!(LOG_DIR, "logs");
    assert_eq!(FILE_STAMP, "%Y-%m-%d_%H-%M-%S");
    assert_eq!(LINE_STAMP, "%Y-%m-%d %H:%M:%S");
}

#[test]
fn a_line_holds_time_level_and_message() {
    assert_eq!(
        format_line("2024-03-09 17:05:00", "INFO", "user 42: synced"),
        "[ORACLE][2024-03-09 17:05:00][INFO] user 42: synced"
    );
    assert_eq!(format_line("", "", ""), "[ORACLE][][] ");
}

#[test]
fn a_line_written_now_holds_level_and_message() {
    let line = format_line_now("WARN", "slow store");
    assert!(line.starts_with("[ORACLE]["));
    assert!(line.ends_with("][WARN] slow store"));
    assert_eq!(line.len(), "[ORACLE][2024-03-09 17:05:00][WARN] slow store".len());
}

#[test]
fn a_target_is_logged_where_it_holds_the_word() {
    assert_eq!(TARGET_WORD, "oracle");
    assert!(accepts_target("oracle"));
    assert!(accepts_target("oracle::database::queries"));
    assert!(accepts_target("my_oracle_bot"));
    assert!(accepts_target("the oracle"));
    assert!(!accepts_target("serenity::gateway"));
    assert!(!accepts_target("oracl"));
    assert!(!accepts_target("Oracle"));
    assert!(!accepts_target(""));
    assert!(!accepts_target("orac le"));
}

#[test]
fn a_text_is_found_wherever_it_stands() {
    assert!(contains_text("abc", ""));
    assert!(contains_text("", ""));
    assert!(!contains_text("", "a"));
    assert!(contains_text("abc", "abc"));
    assert!(contains_text("abc", "c"));
    assert!(contains_text("aab", "ab"));
    assert!(!contains_text("abc", "abcd"));
    assert!(!contains_text("abc", "ca"));
    assert!(contains_text("żółw oracle", "oracle"));
    assert!(contains_text("żółw", "ół"));
}

#[test]
fn an_empty_directory_needs_no_cleanup() {
    assert_eq!(plan(&[]), keep_all());
}

#[test]
fn young_and_small_files_stay() {
    assert_eq!(plan(&[file(DAY, 10), file(9 * DAY, 20), file(0, 30)]), keep_all());
}

#[test]
fn a_file_of_ten_days_is_removed() {
    assert_eq!(MAX_AGE, 10 * DAY);
    let entries = [file(10 * DAY, 1), file(10 * DAY - 1, 1), file(11 * DAY, 1), file(DAY, 1)];
    assert_eq!(plan(&entries), Cleanup { expired: vec![0, 2], ..keep_all() });
}

#[test]
fn what_is_no_file_is_passed_over() {
    let dir = LogFile { is_file: false, modified: 0, size: u64::MAX };
    let ahead = LogFile { is_file: false, modified: NOW + 1, size: 0 };
    assert_eq!(plan(&[dir, ahead, file(DAY, 1)]), keep_all());
}

#[test]
fn the_oldest_file_goes_where_the_directory_is_full() {
    assert_eq!(MAX_TOTAL, 100 * 1024 * 1024);
    let half = MAX_TOTAL / 2;
    let entries = [file(2 * DAY, half), file(5 * DAY, half), file(3 * DAY, 0)];
    assert_eq!(plan(&entries), Cleanup { evict: Some(1), ..keep_all() });
    let short = [file(2 * DAY, half), file(5 * DAY, half - 1)];
    assert_eq!(plan(&short), keep_all());
}

#[test]
fn of_two_equally_old_files_the_first_goes() {
    let entries = [file(DAY, 1), file(4 * DAY, MAX_TOTAL), file(4 * DAY, 1)];
    assert_eq!(plan(&entries), Cleanup { evict: Some(1), ..keep_all() });
}

#[test]
fn removed_files_count_towards_the_size() {
    let entries = [file(20 * DAY, MAX_TOTAL), file(2 * DAY, 1), file(3 * DAY, 1)];
    assert_eq!(plan(&entries), Cleanup { expired: vec![0], evict: Some(2), ..keep_all() });
}

#[test]
fn a_full_directory_of_old_files_has_none_to_evict() {
    let entries = [file(20 * DAY, MAX_TOTAL), file(12 * DAY, MAX_TOTAL)];
    assert_eq!(plan(&entries), Cleanup { expired: vec![0, 1], ..keep_all() });
}

#[test]
fn sizes_beyond_sixty_four_bits_add_up() {
    let entries = [file(DAY, u64::MAX), file(2 * DAY, u64::MAX), file(3 * DAY, u64::MAX)];
    assert_eq!(plan(&entries), Cleanup { evict: Some(2), ..keep_all() });
}

#[test]
fn the_scan_gives_up_at_a_file_from_the_future() {
    let ahead = LogFile { is_file: true, modified: NOW + 1, size: 1 };
    let entries = [file(11 * DAY, MAX_TOTAL), file(DAY, 1), ahead, file(12 * DAY, 1)];
    assert_eq!(
        plan(&entries),
        Cleanup { expired: vec![0], evict: None, clock_fault: Some(2), report_to_log: false }
    );
    let on_time = LogFile { is_file: true, modified: NOW, size: 1 };
    assert_eq!(plan(&[on_time]), keep_all());
}

#[test]
fn a_started_logger_reports_removals_to_the_log() {
    let mut logger = Logger::new(LevelFilter::Info);
    assert!(!logger.clean_logs(&vec![], NOW).report_to_log);
    logger.start("logs/a.log".to_string());
    let plan = logger.clean_logs(&vec![file(11 * DAY, 1)], NOW);
    assert_eq!(
        plan,
        Cleanup { expired: vec![0], evict: None, clock_fault: None, report_to_log: true }
    );
}
