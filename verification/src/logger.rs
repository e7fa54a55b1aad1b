//! What becomes of a log record: whether it is wanted, and which messages go to the client.

use vstd::prelude::*;
use crate::text::{str_chars, str_eq};

verus! {

/// The severity of a log record, from the most to the least severe.
#[derive(Debug, Clone, Copy, PartialEq, Eq, Structural)]
pub enum LogLevel {
    Error,
    Warn,
    Info,
    Debug,
    Trace,
}

/// How much tracing the client asked for.
#[derive(Debug, Clone, Copy, PartialEq, Eq, Structural)]
pub enum TraceValue {
    Off,
    Messages,
    Verbose,
}

/// The type of a message shown or logged by the client.
#[derive(Debug, Clone, Copy, PartialEq, Eq, Structural)]
pub enum MessageKind {
    Error,
    Warning,
    Info,
}

/// A message to send for a log record.
#[derive(Debug)]
pub enum LogAction {
    /// A `window/showMessage` notification.
    ShowMessage(MessageKind, String),
    /// A `window/logMessage` notification.
    LogMessage(MessageKind, String),
    /// A line on the standard error stream.
    Stderr(String),
}

/// Where log records go: into a cache until the client sets its trace level, then to the client.
#[derive(Debug, Clone, Copy, PartialEq, Eq, Structural)]
pub enum LoggerMode {
    Cache,
    Normal(TraceValue),
}

/// The rank of a level: 1 for errors up to 5 for traces.
pub open spec fn level_rank(l: LogLevel) -> int {
    match l {
        LogLevel::Error => 1,
        LogLevel::Warn => 2,
        LogLevel::Info => 3,
        LogLevel::Debug => 4,
        LogLevel::Trace => 5,
    }
}

pub open spec fn spec_lsp_log_enabled(level: LogLevel, trace: TraceValue) -> bool {
    !(trace == TraceValue::Off && level_rank(level) <= 3)
}

/// Whether the client logger takes a record of `level`: all but errors, warnings and
/// information while tracing is off.
pub fn lsp_log_enabled(level: LogLevel, trace: TraceValue) -> (r: bool)
    ensures
        r == spec_lsp_log_enabled(level, trace),
{
    let rank_le_info = match level {
        LogLevel::Error | LogLevel::Warn | LogLevel::Info => true,
        _ => false,
    };
    !(trace == TraceValue::Off && rank_le_info)
}

/// Whether the logger takes a record: every record while it caches them.
pub fn log_enabled(mode: LoggerMode, level: LogLevel) -> (r: bool)
    ensures
        r == match mode {
            LoggerMode::Cache => true,
            LoggerMode::Normal(trace) => spec_lsp_log_enabled(level, trace),
        },
{
    match mode {
        LoggerMode::Cache => true,
        LoggerMode::Normal(trace) => lsp_log_enabled(level, trace),
    }
}

/// The shape of the messages sent for a record: `(kind, is_show_message)` for client messages,
/// `None` for a line on the error stream.
pub open spec fn spec_log_actions(
    level: LogLevel,
    trace: TraceValue,
    is_current_module: bool,
    message: Seq<char>,
    full_message: Seq<char>,
) -> Seq<(int, Option<MessageKind>, Seq<char>)> {
    if level_rank(level) > 3 && trace == TraceValue::Off && !is_current_module {
        Seq::empty()
    } else {
        match level {
            LogLevel::Error => (if is_current_module {
                seq![(0int, Some(MessageKind::Error), message)]
            } else {
                Seq::empty()
            }) + seq![(1int, Some(MessageKind::Error), full_message)],
            LogLevel::Warn => (if is_current_module {
                seq![(0int, Some(MessageKind::Warning), message)]
            } else {
                Seq::empty()
            }) + seq![(1int, Some(MessageKind::Warning), full_message)],
            LogLevel::Info => seq![(1int, Some(MessageKind::Info), full_message)],
            _ => seq![(2int, None, message)],
        }
    }
}

/// A message as `(0, kind, text)` for a shown message, `(1, kind, text)` for a logged one and
/// `(2, None, text)` for an error-stream line.
pub open spec fn action_view(a: LogAction) -> (int, Option<MessageKind>, Seq<char>) {
    match a {
        LogAction::ShowMessage(k, s) => (0, Some(k), s@),
        LogAction::LogMessage(k, s) => (1, Some(k), s@),
        LogAction::Stderr(s) => (2, None, s@),
    }
}

/// The messages that the client logger sends for a record. Debug and trace records of other
/// crates are dropped while tracing is off. Errors and warnings of this crate are also shown to
/// the user; debug and trace records go to the error stream.
pub fn lsp_log_actions(
    level: LogLevel,
    trace: TraceValue,
    is_current_module: bool,
    message: String,
    full_message: String,
) -> (r: Vec<LogAction>)
    ensures
        r@.map_values(|a: LogAction| action_view(a)) == spec_log_actions(
            level,
            trace,
            is_current_module,
            message@,
            full_message@,
        ),
{
    let mut r: Vec<LogAction> = Vec::new();
    let above_info = match level {
        LogLevel::Debug | LogLevel::Trace => true,
        _ => false,
    };
    if above_info && trace == TraceValue::Off && !is_current_module {
        proof {
            assert(r@.map_values(|a: LogAction| action_view(a)) =~= Seq::empty());
        }
        return r;
    }
    match level {
        LogLevel::Error => {
            if is_current_module {
                r.push(LogAction::ShowMessage(MessageKind::Error, message));
            }
            r.push(LogAction::LogMessage(MessageKind::Error, full_message));
        },
        LogLevel::Warn => {
            if is_current_module {
                r.push(LogAction::ShowMessage(MessageKind::Warning, message));
            }
            r.push(LogAction::LogMessage(MessageKind::Warning, full_message));
        },
        LogLevel::Info => {
            r.push(LogAction::LogMessage(MessageKind::Info, full_message));
        },
        _ => {
            r.push(LogAction::Stderr(message));
        },
    }
    proof {
        assert(r@.map_values(|a: LogAction| action_view(a)) =~= spec_log_actions(
            level,
            trace,
            is_current_module,
            message@,
            full_message@,
        ));
    }
    r
}

/// Whether a record comes from this crate: its module path is the crate's name, or starts with
/// the crate's name and `::`.
pub fn is_current_module(path: &str) -> (r: bool)
    ensures
        r == (path@ == "glass_easel_analyzer"@ || (path@.len() >= 22
            && path@.take(22) == "glass_easel_analyzer::"@)),
{
    if str_eq(path, "glass_easel_analyzer") {
        return true;
    }
    let prefix = str_chars("glass_easel_analyzer::");
    let chars = str_chars(path);
    proof {
        reveal_strlit("glass_easel_analyzer::");
        assert(prefix@.len() == 22);
    }
    if chars.len() < prefix.len() {
        return false;
    }
    let mut i: usize = 0;
    while i < prefix.len()
        invariant
            prefix@ == "glass_easel_analyzer::"@,
            prefix@.len() == 22,
            chars@ == path@,
            path@ != "glass_easel_analyzer"@,
            chars@.len() >= 22,
            i <= 22,
            forall|j: int| 0 <= j < i ==> chars@[j] == prefix@[j],
        decreases 22 - i,
    {
        if chars[i] != prefix[i] {
            proof {
                assert(path@.take(22)[i as int] != "glass_easel_analyzer::"@[i as int]);
            }
            return false;
        }
        i = i + 1;
    }
    proof {
        assert(path@.take(22) =~= "glass_easel_analyzer::"@);
    }
    true
}

/// The error of a result, which the caller logs; `None` for a success.
pub fn log_if_err<T, E>(r: Result<T, E>) -> (e: Option<E>)
    ensures
        r is Ok ==> e is None,
        r is Err ==> e == Some(r->Err_0),
{
    match r {
        Ok(_) => None,
        Err(err) => Some(err),
    }
}

} // verus!
