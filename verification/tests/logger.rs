use glass_easel_analyzer::logger::{
    is_current_module, log_enabled, log_if_err, lsp_log_actions, lsp_log_enabled, LogAction,
    LogLevel, LoggerMode, MessageKind, TraceValue,
};

fn shape(actions: &[LogAction]) -> Vec<(u8, Option<MessageKind>, String)> {
    actions
        .iter()
        .map(|a| match a {
            LogAction::ShowMessage(k, s) => (0, Some(*k), s.clone()),
            LogAction::LogMessage(k, s) => (1, Some(*k), s.clone()),
            LogAction::Stderr(s) => (2, None, s.clone()),
        })
        .collect()
}

#[test]
fn enabled_levels_depend_on_trace() {
    assert!(!lsp_log_enabled(LogLevel::Error, TraceValue::Off));
    assert!(!lsp_log_enabled(LogLevel::Info, TraceValue::Off));
    assert!(lsp_log_enabled(LogLevel::Debug, TraceValue::Off));
    assert!(lsp_log_enabled(LogLevel::Info, TraceValue::Messages));
    assert!(log_enabled(LoggerMode::Cache, LogLevel::Error));
    assert!(!log_enabled(LoggerMode::Normal(TraceValue::Off), LogLevel::Warn));
}

#[test]
fn errors_of_this_crate_are_shown_and_logged() {
    let a = lsp_log_actions(LogLevel::Error, TraceValue::Off, true, "m".into(), "[f:1] m".into());
    assert_eq!(
        shape(&a),
        vec![
            (0, Some(MessageKind::Error), "m".to_string()),
            (1, Some(MessageKind::Error), "[f:1] m".to_string()),
        ]
    );
    let a = lsp_log_actions(LogLevel::Warn, TraceValue::Off, false, "m".into(), "full".into());
    assert_eq!(shape(&a), vec![(1, Some(MessageKind::Warning), "full".to_string())]);
}

#[test]
fn debug_of_other_crates_is_dropped_while_trace_is_off() {
    let a = lsp_log_actions(LogLevel::Debug, TraceValue::Off, false, "m".into(), "f".into());
    assert!(a.is_empty());
    let a = lsp_log_actions(LogLevel::Trace, TraceValue::Verbose, false, "m".into(), "f".into());
    assert_eq!(shape(&a), vec![(2, None, "m".to_string())]);
    let a = lsp_log_actions(LogLevel::Info, TraceValue::Off, false, "m".into(), "f".into());
    assert_eq!(shape(&a), vec![(1, Some(MessageKind::Info), "f".to_string())]);
}

#[test]
fn current_module_paths() {
    assert!(is_current_module("glass_easel_analyzer"));
    assert!(is_current_module("glass_easel_analyzer::wxss"));
    assert!(!is_current_module("glass_easel_analyzer_x"));
    assert!(!is_current_module("tokio::runtime"));
}

#[test]
fn log_if_err_returns_the_error() {
    assert_eq!(log_if_err::<u8, &str>(Ok(1)), None);
    assert_eq!(log_if_err::<u8, &str>(Err("bad")), Some("bad"));
}
