use power_plan_pro::autostart::{autostart_value, APP_NAME, RUN_KEY};
use power_plan_pro::logging::{
    panic_report, source_location, days_to_date, format_timestamp, level_label, log_line, log_target_enabled, LogLevel,
};
use power_plan_pro::metrics::{engine_type_of, ensure_ok, group_by_engine_type, to_wide};
use power_plan_pro::system::{
    is_autostart_enabled, register_autostart_command, unregister_autostart_command, TASK_NAME,
};
use power_plan_pro::text::{eq_ignore_ascii_case, split_lines, split_words, chars_of};

#[test]
fn days_map_to_calendar_dates() {
    assert_eq!(days_to_date(0), (1970, 1, 1));
    assert_eq!(days_to_date(59), (1970, 3, 1));
    assert_eq!(days_to_date(10956), (1999, 12, 31));
    assert_eq!(days_to_date(11016), (2000, 2, 29));
    assert_eq!(days_to_date(11017), (2000, 3, 1));
    assert_eq!(days_to_date(19723), (2024, 1, 1));
    assert_eq!(days_to_date(19782), (2024, 2, 29));
    assert_eq!(days_to_date(47541), (2100, 3, 1));
    assert_eq!(days_to_date(47540), (2100, 2, 28));
}

#[test]
fn timestamps_are_zero_padded() {
    assert_eq!(format_timestamp(0, 0), "1970-01-01 00:00:00.000");
    assert_eq!(format_timestamp(1_700_000_000, 7), "2023-11-14 22:13:20.007");
    assert_eq!(format_timestamp(86_399, 999), "1970-01-01 23:59:59.999");
}

#[test]
fn log_lines_and_targets() {
    assert!(log_target_enabled("power_plan_pro::engine"));
    assert!(!log_target_enabled("tao::platform_impl"));
    assert!(!log_target_enabled("wry::webview"));
    assert!(log_target_enabled("tao"));
    assert_eq!(level_label(LogLevel::Warn), " WARN");
    assert_eq!(level_label(LogLevel::Error), "ERROR");
    assert_eq!(level_label(LogLevel::Info), " INFO");
    assert_eq!(level_label(LogLevel::Debug), "DEBUG");
    assert_eq!(level_label(LogLevel::Trace), "TRACE");
    assert_eq!(
        log_line("1970-01-01 00:00:00.000", LogLevel::Info, "hello"),
        "[1970-01-01 00:00:00.000] [ INFO] hello"
    );
}

#[test]
fn wide_strings_are_utf16_with_terminator() {
    assert_eq!(to_wide(""), vec![0u16]);
    assert_eq!(to_wide("A\\"), vec![65u16, 92, 0]);
    let s = "é😀";
    let mut expected: Vec<u16> = s.encode_utf16().collect();
    expected.push(0);
    assert_eq!(to_wide(s), expected);
    assert_eq!(to_wide("😀"), vec![0xd83d, 0xde00, 0]);
}

#[test]
fn gpu_engine_type_is_taken_from_instance_name() {
    assert_eq!(engine_type_of("pid_1234_luid_0x00000000_0x0000BDXGI_engtype_3D"), "3D");
    assert_eq!(engine_type_of("pid_1_engtype_VideoDecode"), "VideoDecode");
    assert_eq!(engine_type_of("pid_1_engtype_"), "");
    assert_eq!(engine_type_of("no engine here"), "Unknown");
}

#[test]
fn counter_status_errors_show_hex() {
    assert_eq!(ensure_ok(0, "collect PDH data"), Ok(()));
    assert_eq!(
        ensure_ok(0x800007D0, "collect PDH data"),
        Err("failed to collect PDH data (PDH status: 0x800007D0)".to_string())
    );
    assert_eq!(
        ensure_ok(1, "open PDH query"),
        Err("failed to open PDH query (PDH status: 0x00000001)".to_string())
    );
}

#[test]
fn autostart_values_and_commands() {
    assert_eq!(APP_NAME, "Power Plan Pro");
    assert_eq!(RUN_KEY, "Software\\Microsoft\\Windows\\CurrentVersion\\Run");
    assert_eq!(autostart_value("C:\\Apps\\ppp.exe"), "\"C:\\Apps\\ppp.exe\"");
    assert_eq!(
        register_autostart_command("C:\\x.exe"),
        "$trigger = New-ScheduledTaskTrigger -AtLogon; $principal = New-ScheduledTaskPrincipal -UserID $env:USERNAME -LogonType Interactive; $task = New-ScheduledTask -Action (New-ScheduledTaskAction -Execute 'C:\\x.exe') -Trigger $trigger -Principal $principal; Register-ScheduledTask -TaskName 'PowerPlanPro' -InputObject $task -Force"
    );
    assert_eq!(
        unregister_autostart_command(),
        "Unregister-ScheduledTask -TaskName 'PowerPlanPro' -Confirm:$false"
    );
    assert_eq!(is_autostart_enabled(false), Ok(false));
    assert_eq!(is_autostart_enabled(true), Ok(true));
    assert_eq!(TASK_NAME, "PowerPlanPro");
}

#[test]
fn text_helpers_follow_std() {
    assert!(eq_ignore_ascii_case("AbC-1", "aBc-1"));
    assert!(!eq_ignore_ascii_case("abc", "abd"));
    assert!(!eq_ignore_ascii_case("É", "é"));
    for text in ["", "a", "a\n", "a\r\nb", "a\r", "\n\n", "x\r\n\r\ny\n"] {
        let lines: Vec<String> = split_lines(&chars_of(text))
            .iter()
            .map(|l| l.iter().collect())
            .collect();
        let expected: Vec<String> = text.lines().map(|l| l.to_string()).collect();
        assert_eq!(lines, expected, "lines of {text:?}");
    }
    for text in ["", "  a  b\u{3000}c\t", "one", " \u{a0} "] {
        let words: Vec<String> = split_words(&chars_of(text))
            .iter()
            .map(|w| w.iter().collect())
            .collect();
        let expected: Vec<String> = text.split_whitespace().map(|w| w.to_string()).collect();
        assert_eq!(words, expected, "words of {text:?}");
    }
}

#[test]
fn panic_reports_name_thread_and_place() {
    let at = source_location("src/engine.rs", 42, 7);
    assert_eq!(at, "src/engine.rs:42:7");
    assert_eq!(
        panic_report("<unnamed>", "boom", &at),
        "PANIC in thread '<unnamed>': boom\n  at src/engine.rs:42:7"
    );
}

#[test]
fn gpu_instances_group_by_engine_type() {
    let names: Vec<String> = vec![
        "pid_1_engtype_3D".to_string(),
        "pid_2_engtype_Copy".to_string(),
        "pid_3_engtype_3D".to_string(),
        "odd".to_string(),
    ];
    let g = group_by_engine_type(&names);
    assert_eq!(g.types, vec!["3D".to_string(), "Copy".to_string(), "Unknown".to_string()]);
    assert_eq!(g.group_of, vec![0, 1, 0, 2]);
    let empty = group_by_engine_type(&Vec::new());
    assert!(empty.types.is_empty() && empty.group_of.is_empty());
}

#[test]
fn consecutive_day_counts_are_consecutive_dates() {
    // 2023-12-31, then 2024-01-01; 2024-02-28, 02-29, 03-01.
    assert_eq!(days_to_date(19722), (2023, 12, 31));
    assert_eq!(days_to_date(19723), (2024, 1, 1));
    assert_eq!(days_to_date(19781), (2024, 2, 28));
    assert_eq!(days_to_date(19782), (2024, 2, 29));
    assert_eq!(days_to_date(19783), (2024, 3, 1));
    assert_eq!(days_to_date(1_000_000_000_000).1 >= 1, true);
}
