use jsphere_vv8_log::{is_not_vv8_log_file, parse_log_lines, LogFileInfo, LogFileInfoErr, LogRecord, LogRecordErr};

#[test]
fn vv8_log_file_name() {
    let expected = LogFileInfo {
        timestamp: 1726285073665,
        pid: 87,
        tid: 87,
        thread_name: "chrome.0".into(),
    };
    let actual = LogFileInfo::from_file_name("vv8-1726285073665-87-87-chrome.0.log").unwrap();
    assert_eq!(expected, actual);
}

#[test]
fn not_vv8_log_file_name() {
    assert!(is_not_vv8_log_file("test.log"));
    assert!(is_not_vv8_log_file("vv8-1726285073665-87-87-chrome.0"));
    assert!(is_not_vv8_log_file("papers.tar.gz"));
}

#[test]
fn log_file_name_is_accepted() {
    assert!(!is_not_vv8_log_file("vv8-1-2-3-x.log"));
    assert!(!is_not_vv8_log_file("vv8-.log"));
}

#[test]
fn log_file_name_errors() {
    assert_eq!(
        LogFileInfo::from_file_name("test.log"),
        Err(LogFileInfoErr::NotALogFileName)
    );
    assert_eq!(
        LogFileInfo::from_file_name("vv8-1-2-chrome.0.log"),
        Err(LogFileInfoErr::NotALogFileName)
    );
    assert_eq!(
        LogFileInfo::from_file_name("vv8-x-2-3-chrome.0.log"),
        Err(LogFileInfoErr::TimestampParsing)
    );
    assert_eq!(
        LogFileInfo::from_file_name("vv8-1-99999999999-3-chrome.0.log"),
        Err(LogFileInfoErr::PidParsing)
    );
    assert_eq!(
        LogFileInfo::from_file_name("vv8-1-2--3-chrome.log"),
        Err(LogFileInfoErr::NotALogFileName)
    );
    assert_eq!(
        LogFileInfo::from_file_name("vv8-1-2-x-chrome.log"),
        Err(LogFileInfoErr::TidParsing)
    );
}

#[test]
fn log_file_name_with_empty_thread_name() {
    let info = LogFileInfo::from_file_name("vv8-18446744073709551615-0-4294967295-.log").unwrap();
    assert_eq!(info.timestamp, u64::MAX);
    assert_eq!(info.pid, 0);
    assert_eq!(info.tid, u32::MAX);
    assert_eq!(info.thread_name, "");
}

#[test]
fn lines_split_into_records_and_errors() {
    let lines: Vec<String> = vec!["~0x10".into(), "x".into(), "".into(), "!?".into()];
    let (records, errs) = parse_log_lines(&lines);
    assert_eq!(records.len(), 2);
    assert_eq!(records[0].0, 0);
    assert_eq!(records[0].1, LogRecord::IsolateContext { address: 16 });
    assert_eq!(records[1].0, 3);
    assert_eq!(errs.len(), 2);
    assert_eq!(errs[0].line_n, 1);
    assert_eq!(errs[0].line, "x");
    assert_eq!(errs[0].err, LogRecordErr::UnknownLogRecordType);
    assert_eq!(errs[1].line_n, 2);
    assert_eq!(errs[1].err, LogRecordErr::UnknownLogRecordType);
}
