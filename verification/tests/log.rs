use nexusnet::log::{
    archive_file, format_entry, log_file, log_mode, log_tmp_file, needs_roll, render_journald, repair_file,
    roll_check_due, roll_step, use_color, LogLevel, LogMode, LogStruct, LogStyle, RenameOutcome, RollStep,
};
use nexusnet::text::{collapse, decimal_text, is_white_space, signed_decimal_text, split_once, trim};

#[test]
fn syslog_priority_mapping() {
    assert_eq!(LogLevel::Critical.syslog_priority(), 2);
    assert_eq!(LogLevel::Error.syslog_priority(), 3);
    assert_eq!(LogLevel::Warning.syslog_priority(), 4);
    assert_eq!(LogLevel::Important.syslog_priority(), 5);
    assert_eq!(LogLevel::Preset.syslog_priority(), 6);
    assert_eq!(LogLevel::Debug.syslog_priority(), 7);
}

#[test]
fn journald_single_line_with_prefix_and_collapsed_newlines() {
    let entry = LogStruct::new(LogLevel::Error, "topic", "line1\nline2");
    let line = render_journald(&entry);
    assert_eq!(line, "<3>[!] topic: line1 line2");
    assert!(!line.contains('\n'));
}

#[test]
fn journald_empty_content() {
    let entry = LogStruct::new(LogLevel::Debug, "topic", "");
    assert_eq!(render_journald(&entry), "<7>[+] topic");
}

#[test]
fn journald_topic_is_on_one_line_too() {
    let entry = LogStruct::new(LogLevel::Warning, "a\nb\r\n c", "d\n");
    assert_eq!(render_journald(&entry), "<4>[*] a b c: d");
    let entry = LogStruct::new(LogLevel::Warning, " a  b\t", "");
    assert_eq!(render_journald(&entry), "<4>[*]  a  b\t");
}

#[test]
fn journald_content_of_white_space_only() {
    let entry = LogStruct::new(LogLevel::Critical, "t", " \t\n\u{3000}");
    assert_eq!(render_journald(&entry), "<2>[CRITICAL] t");
}

#[test]
fn entry_has_four_shapes() {
    assert_eq!(format_entry("[+]", Some("12:00"), "t", ""), "[+] 12:00\n    t");
    assert_eq!(format_entry("[+]", Some("12:00"), "t", "c"), "[+] 12:00\n    t\n    c");
    assert_eq!(format_entry("[+]", None, "t", ""), "[+] t");
    assert_eq!(format_entry("[+]", None, "t", "c"), "[+] t\n    c");
}

#[test]
fn levels_have_marks_styles_and_streams() {
    let all = [
        (LogLevel::Important, "[IMPORTANT]", LogStyle::OnGreenBold, false),
        (LogLevel::Debug, "[+]", LogStyle::Cyan, false),
        (LogLevel::Preset, "[-]", LogStyle::Normal, false),
        (LogLevel::Warning, "[*]", LogStyle::Yellow, true),
        (LogLevel::Error, "[!]", LogStyle::Red, true),
        (LogLevel::Critical, "[CRITICAL]", LogStyle::OnRedBoldBlink, true),
    ];
    for (level, mark, style, stderr) in all {
        assert_eq!(level.as_str(), mark);
        assert_eq!(level.style(), style);
        assert_eq!(level.to_stderr(), stderr);
    }
}

#[test]
fn mode_and_color() {
    assert_eq!(log_mode(Some(b"8:1")), LogMode::Journald);
    assert_eq!(log_mode(Some(b"")), LogMode::File);
    assert_eq!(log_mode(None), LogMode::File);
    assert!(use_color(false, true));
    assert!(!use_color(true, true));
    assert!(!use_color(false, false));
}

#[test]
fn rolling_waits_and_looks_at_the_size() {
    assert!(roll_check_due(None, 0));
    assert!(!roll_check_due(Some(10), 5_000_000_009));
    assert!(roll_check_due(Some(10), 5_000_000_010));
    assert!(!roll_check_due(Some(10), 0));
    assert!(!needs_roll(10 * 1024 * 1024));
    assert!(needs_roll(10 * 1024 * 1024 + 1));
}

#[test]
fn rolling_repairs_once() {
    assert_eq!(roll_step(RenameOutcome::Done, false), RollStep::Archive);
    assert_eq!(roll_step(RenameOutcome::AlreadyExists, false), RollStep::RepairAndRetry);
    assert_eq!(roll_step(RenameOutcome::AlreadyExists, true), RollStep::GiveUp);
    assert_eq!(roll_step(RenameOutcome::NotFound, false), RollStep::Stop);
    assert_eq!(roll_step(RenameOutcome::NotFound, true), RollStep::GiveUp);
    assert_eq!(roll_step(RenameOutcome::Failed, false), RollStep::GiveUp);
}

#[test]
fn names_of_log_files() {
    let path = "/var/log/nexusnet/nexusnet.log";
    assert_eq!(log_file(path), path);
    assert_eq!(log_tmp_file(path), "/var/log/nexusnet/nexusnet.log.tmp");
    assert_eq!(
        archive_file(path, Some("0101_1200"), "0102_1300", 42),
        "/var/log/nexusnet/0101_1200-0102_1300-42.gz"
    );
    assert_eq!(archive_file("./log", None, "0102_1300", -7), "./XXXX_XXXX-0102_1300--7.gz");
    assert_eq!(repair_file("./log", None, 1), "./REPAIR-XXXX_XXXX-1.gz");
    assert_eq!(repair_file("log", Some("0101_1200"), 1), "REPAIR-0101_1200-1.gz");
    assert_eq!(repair_file("/log", None, 1), "/REPAIR-XXXX_XXXX-1.gz");
}

#[test]
fn white_space_is_what_the_standard_library_says() {
    for n in 0..0x11000u32 {
        if let Some(c) = char::from_u32(n) {
            assert_eq!(is_white_space(c), c.is_whitespace(), "{n:x}");
        }
    }
}

#[test]
fn collapsing_and_trimming() {
    assert_eq!(collapse("  a \n b\tc  "), "a b c");
    assert_eq!(collapse(""), "");
    assert_eq!(trim(" \u{a0}a b\n"), "a b");
    assert_eq!(trim(" \n"), "");
}

#[test]
fn numbers_and_separators() {
    assert_eq!(decimal_text(0), "0");
    assert_eq!(decimal_text(u64::MAX), "18446744073709551615");
    assert_eq!(signed_decimal_text(i64::MIN), "-9223372036854775808");
    assert_eq!(split_once("a/in/inb", "/in"), Some(("a".to_string(), "/inb".to_string())));
    assert_eq!(split_once("a/i", "/in"), None);
}
