use diaspor_vfs::audit::{AuditLog, AuditLogEntry};
use diaspor_vfs::logs::{
    level_name, log_bytes_message, log_file_name, log_file_path, log_line_message,
    needs_rotation, rotation_moves, select_logs, LogLevel, LogRecord, DEFAULT_MAX_LOG_FILE_SIZE,
    DEFAULT_MAX_ROTATED_FILES, LOG_FILE_SLOTS,
};
use diaspor_vfs::migrate::{legacy_and_current, should_move};

#[test]
fn log_files_are_named_and_rotated() {
    assert_eq!(log_file_name(0), "diaspor.log");
    assert_eq!(log_file_name(3), "diaspor.3.log");
    assert_eq!(log_file_name(12), "diaspor.12.log");
    assert_eq!(log_file_path("/var/log/diaspor", 1), "/var/log/diaspor/diaspor.1.log");
    assert_eq!(DEFAULT_MAX_LOG_FILE_SIZE, 10 * 1024 * 1024);
    assert_eq!(DEFAULT_MAX_ROTATED_FILES, 5);
    assert_eq!(LOG_FILE_SLOTS, 6);
    assert!(needs_rotation(10, 10));
    assert!(!needs_rotation(9, 10));
    assert_eq!(rotation_moves(3), vec![(2, 3), (1, 2), (0, 1)]);
    assert!(rotation_moves(0).is_empty());
}

#[test]
fn level_names() {
    assert_eq!(level_name(LogLevel::Error), "ERROR");
    assert_eq!(level_name(LogLevel::Warn), "WARN");
    assert_eq!(level_name(LogLevel::Info), "INFO");
    assert_eq!(level_name(LogLevel::Debug), "DEBUG");
    assert_eq!(level_name(LogLevel::Trace), "TRACE");
}

#[test]
fn written_lines_are_trimmed_and_blank_ones_dropped() {
    assert_eq!(log_line_message("  started\n").as_deref(), Some("started"));
    assert!(log_line_message(" \n\t").is_none());
    assert_eq!(log_bytes_message(b"  hello world \n").as_deref(), Some("hello world"));
    assert!(log_bytes_message(b"\n").is_none());
    assert_eq!(log_bytes_message(&[0x66, 0xff, 0x67]).as_deref(), Some("f\u{fffd}g"));
}

fn rec(secs: i64, nanos: u32, level: &str, msg: &str) -> LogRecord {
    LogRecord {
        timestamp_secs: secs,
        timestamp_nanos: nanos,
        level: level.to_string(),
        target: "t".to_string(),
        message: msg.to_string(),
        fields: None,
    }
}

#[test]
fn logs_are_shown_newest_first_filtered_and_limited() {
    let entries = vec![
        rec(10, 0, "INFO", "a"),
        rec(30, 0, "ERROR", "b"),
        rec(20, 5, "INFO", "c"),
        rec(20, 5, "INFO", "d"),
        rec(20, 1, "WARN", "e"),
    ];
    let msgs = |v: Vec<LogRecord>| v.into_iter().map(|r| r.message).collect::<Vec<_>>();
    let all = select_logs(
        vec![rec(10, 0, "INFO", "a"), rec(30, 0, "ERROR", "b"), rec(20, 5, "INFO", "c"), rec(20, 5, "INFO", "d"), rec(20, 1, "WARN", "e")],
        None,
        None,
    );
    assert_eq!(msgs(all), vec!["b", "c", "d", "e", "a"]);
    let info = select_logs(entries, Some(2), Some("INFO"));
    assert_eq!(msgs(info), vec!["c", "d"]);
    assert!(select_logs(vec![rec(1, 0, "INFO", "x")], Some(0), None).is_empty());
}

fn audit(id: &str, user: Option<&str>, kind: &str, status: &str, created: Option<i64>, completed: Option<i64>) -> AuditLogEntry {
    AuditLogEntry {
        operation_id: id.to_string(),
        operation_type: kind.to_string(),
        source_id: "src".to_string(),
        source_path: "/p".to_string(),
        destination_path: None,
        file_size: None,
        status: status.to_string(),
        error: None,
        user_id: user.map(|u| u.to_string()),
        organization_id: Some("org".to_string()),
        created_at: created,
        completed_at: completed,
    }
}

fn op_ids(v: Vec<AuditLogEntry>) -> Vec<String> {
    v.into_iter().map(|e| e.operation_id).collect()
}

#[test]
fn audit_trail_searches() {
    let mut log = AuditLog::new(Vec::new(), 0);
    log.log_operation(audit("1", Some("ann"), "Copy", "Completed", Some(5), None));
    log.log_operation(audit("2", None, "Move", "Failed", Some(6), None));
    log.log_operation(audit("3", Some("ann"), "Move", "Completed", Some(7), None));
    assert_eq!(op_ids(log.get_all_entries()), vec!["1", "2", "3"]);
    assert_eq!(op_ids(log.get_entries_by_user("ann")), vec!["1", "3"]);
    assert_eq!(op_ids(log.get_entries_by_organization("org")), vec!["1", "2", "3"]);
    assert_eq!(op_ids(log.get_entries_by_type("Move")), vec!["2", "3"]);
    assert_eq!(op_ids(log.get_entries_by_status("Failed")), vec!["2"]);
    assert_eq!(op_ids(log.entries_to_save()), vec!["1", "2", "3"]);
    log.clear();
    assert!(log.get_all_entries().is_empty());
}

#[test]
fn capped_audit_trails_keep_the_newest() {
    let entries = vec![
        audit("old", None, "Copy", "Completed", Some(1), None),
        audit("undated", None, "Copy", "Completed", None, None),
        audit("done-late", None, "Copy", "Completed", None, Some(50)),
        audit("new", None, "Copy", "Completed", Some(40), None),
        audit("tie", None, "Copy", "Completed", Some(40), None),
    ];
    let log = AuditLog::new(entries, 3);
    assert_eq!(op_ids(log.entries_to_save()), vec!["done-late", "new", "tie"]);
}

#[test]
fn legacy_state_moves_once() {
    let (old, new) = legacy_and_current("/home/me/.config");
    assert_eq!(old, "/home/me/.config/ursly");
    assert_eq!(new, "/home/me/.config/diaspor");
    assert!(should_move(true, false));
    assert!(!should_move(true, true));
    assert!(!should_move(false, false));
}
