use nodeget::rpc_timing::{
    batch_completed_message, batch_methods_summary, call_completed_message, notification_completed_message,
    parse_rpc_timing_log_level, LogLevel,
};

#[test]
fn missing_or_blank_level_is_trace() {
    assert_eq!(parse_rpc_timing_log_level(None), (LogLevel::Trace, None));
    assert_eq!(parse_rpc_timing_log_level(Some("")), (LogLevel::Trace, None));
    assert_eq!(parse_rpc_timing_log_level(Some(" \t\n ")), (LogLevel::Trace, None));
    assert_eq!(parse_rpc_timing_log_level(Some("\u{3000}")), (LogLevel::Trace, None));
}

#[test]
fn level_names_ignore_case_and_space() {
    assert_eq!(parse_rpc_timing_log_level(Some("error")), (LogLevel::Error, None));
    assert_eq!(parse_rpc_timing_log_level(Some("  WARN ")), (LogLevel::Warn, None));
    assert_eq!(parse_rpc_timing_log_level(Some("Info")), (LogLevel::Info, None));
    assert_eq!(parse_rpc_timing_log_level(Some("dEbUg\n")), (LogLevel::Debug, None));
    assert_eq!(parse_rpc_timing_log_level(Some("TRACE")), (LogLevel::Trace, None));
}

#[test]
fn unknown_level_is_trace_and_reported_trimmed() {
    assert_eq!(
        parse_rpc_timing_log_level(Some("  verbose  ")),
        (LogLevel::Trace, Some("verbose".to_string()))
    );
    assert_eq!(
        parse_rpc_timing_log_level(Some("errors")),
        (LogLevel::Trace, Some("errors".to_string()))
    );
    assert_eq!(
        parse_rpc_timing_log_level(Some("\u{a0}wärn\u{2003}")),
        (LogLevel::Trace, Some("wärn".to_string()))
    );
}

#[test]
fn every_level_reads_back_from_its_name() {
    for (name, level) in [
        ("error", LogLevel::Error),
        ("warn", LogLevel::Warn),
        ("info", LogLevel::Info),
        ("debug", LogLevel::Debug),
        ("trace", LogLevel::Trace),
    ] {
        assert_eq!(parse_rpc_timing_log_level(Some(name)), (level, None));
    }
}

#[test]
fn log_lines() {
    assert_eq!(
        call_completed_message("agent_query_static", "Number(3)", 1234),
        "rpc.call completed method=agent_query_static id=Number(3) elapsed_us=1234"
    );
    assert_eq!(
        notification_completed_message("ping", 0),
        "rpc.notification completed method=ping elapsed_us=0"
    );
    assert_eq!(
        batch_completed_message(2, "a,b", 340282366920938463463374607431768211455),
        "rpc.batch completed size=2 methods=a,b elapsed_us=340282366920938463463374607431768211455"
    );
}

#[test]
fn batch_summary() {
    assert_eq!(batch_methods_summary(&vec![]), "<empty>");
    assert_eq!(batch_methods_summary(&vec![Some("a".to_string())]), "a");
    assert_eq!(
        batch_methods_summary(&vec![Some("a".to_string()), None, Some("c".to_string())]),
        "a,<invalid>,c"
    );
    assert_eq!(batch_methods_summary(&vec![None]), "<invalid>");
}
