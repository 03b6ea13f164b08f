//! Which log messages are written, where and how.

use vstd::prelude::*;

verus! {

/// Where a log line goes.
#[derive(Clone, Copy, Debug, PartialEq, Eq, Structural)]
pub enum LogSink {
    Stdout,
    Syslog,
}

/// The level of a written log line.
#[derive(Clone, Copy, Debug, PartialEq, Eq, Structural)]
pub enum LogPriority {
    Error,
    Info,
    Debug,
}

/// A log line to write: its sink, its level, and its text.
pub struct LogLine {
    pub sink: LogSink,
    pub priority: LogPriority,
    pub text: String,
}

/// The level that a number names: 1 errors, 2 infos, 3 debug messages.
pub open spec fn priority_of(level: i32) -> Option<LogPriority> {
    if level == 1 {
        Some(LogPriority::Error)
    } else if level == 2 {
        Some(LogPriority::Info)
    } else if level == 3 {
        Some(LogPriority::Debug)
    } else {
        None
    }
}

/// The prefix of a standard output line of a level.
pub open spec fn stdout_prefix(p: LogPriority) -> Seq<char> {
    match p {
        LogPriority::Error => "* ruxc [error]:: "@,
        LogPriority::Info => "* ruxc [info]:: "@,
        LogPriority::Debug => "* ruxc [debug]:: "@,
    }
}

/// Whether and how a message is logged: nothing when its `level` is above the
/// `debug` threshold or names no level; else to standard output with a prefix
/// naming the level when `logtype` is 0, to the system log as it is when
/// `logtype` is 1, and nowhere for another `logtype`.
pub open spec fn log_line_spec(logtype: i32, debug: i32, level: i32, message: Seq<char>) -> Option<
    (LogSink, LogPriority, Seq<char>),
> {
    if level > debug {
        None
    } else {
        match priority_of(level) {
            None => None,
            Some(p) => if logtype == 0 {
                Some((LogSink::Stdout, p, stdout_prefix(p) + message))
            } else if logtype == 1 {
                Some((LogSink::Syslog, p, message))
            } else {
                None
            },
        }
    }
}

/// Law: a message is written exactly when its level is 1, 2 or 3, not above
/// `debug`, and `logtype` is 0 or 1; it goes to standard output for `logtype`
/// 0 and to the system log for 1; its priority is the one its level names
/// (1 error, 2 info, 3 debug) whatever the sink; the system log gets the
/// message as it is.
pub proof fn lemma_log_rule(logtype: i32, debug: i32, level: i32, message: Seq<char>)
    ensures
        log_line_spec(logtype, debug, level, message) is Some <==> (1 <= level <= 3 && level
            <= debug && (logtype == 0 || logtype == 1)),
        log_line_spec(logtype, debug, level, message) matches Some(x) ==> {
            &&& (x.0 == LogSink::Stdout) <==> (logtype == 0)
            &&& (x.0 == LogSink::Syslog) <==> (logtype == 1)
            &&& level == 1 ==> x.1 == LogPriority::Error
            &&& level == 2 ==> x.1 == LogPriority::Info
            &&& level == 3 ==> x.1 == LogPriority::Debug
            &&& logtype == 1 ==> x.2 == message
            &&& logtype == 0 ==> x.2.len() > message.len() && x.2.subrange(
                x.2.len() - message.len(),
                x.2.len() as int,
            ) == message
            &&& (logtype == 0 && level == 1) ==> x.2 == seq![
                '*', ' ', 'r', 'u', 'x', 'c', ' ', '[', 'e', 'r', 'r', 'o', 'r', ']', ':', ':', ' ',
            ] + message
            &&& (logtype == 0 && level == 2) ==> x.2 == seq![
                '*', ' ', 'r', 'u', 'x', 'c', ' ', '[', 'i', 'n', 'f', 'o', ']', ':', ':', ' ',
            ] + message
            &&& (logtype == 0 && level == 3) ==> x.2 == seq![
                '*', ' ', 'r', 'u', 'x', 'c', ' ', '[', 'd', 'e', 'b', 'u', 'g', ']', ':', ':', ' ',
            ] + message
        },
{
    reveal_strlit("* ruxc [error]:: ");
    reveal_strlit("* ruxc [info]:: ");
    reveal_strlit("* ruxc [debug]:: ");
    assert("* ruxc [error]:: "@ =~= seq![
        '*', ' ', 'r', 'u', 'x', 'c', ' ', '[', 'e', 'r', 'r', 'o', 'r', ']', ':', ':', ' ',
    ]);
    assert("* ruxc [info]:: "@ =~= seq![
        '*', ' ', 'r', 'u', 'x', 'c', ' ', '[', 'i', 'n', 'f', 'o', ']', ':', ':', ' ',
    ]);
    assert("* ruxc [debug]:: "@ =~= seq![
        '*', ' ', 'r', 'u', 'x', 'c', ' ', '[', 'd', 'e', 'b', 'u', 'g', ']', ':', ':', ' ',
    ]);
    if log_line_spec(logtype, debug, level, message) is Some && logtype == 0 {
        let x = log_line_spec(logtype, debug, level, message)->0;
        assert(x.2.subrange(x.2.len() - message.len(), x.2.len() as int) =~= message);
    }
}

/// The view of a log line.
pub open spec fn log_view(l: Option<LogLine>) -> Option<(LogSink, LogPriority, Seq<char>)> {
    match l {
        Some(l) => Some((l.sink, l.priority, l.text@)),
        None => None,
    }
}

/// The line to write for a message of `level`, as `log_line_spec` says. A
/// message bound for the system log holds no NUL character.
pub fn log_line(logtype: i32, debug: i32, level: i32, message: &str) -> (r: Option<LogLine>)
    requires
        logtype == 1 && level <= debug ==> !message@.contains('\0'),
    ensures
        log_view(r) == log_line_spec(logtype, debug, level, message@),
{
    if level > debug {
        return None;
    }
    let p = if level == 1 {
        LogPriority::Error
    } else if level == 2 {
        LogPriority::Info
    } else if level == 3 {
        LogPriority::Debug
    } else {
        return None;
    };
    if logtype == 0 {
        let mut text = match p {
            LogPriority::Error => String::from_str("* ruxc [error]:: "),
            LogPriority::Info => String::from_str("* ruxc [info]:: "),
            LogPriority::Debug => String::from_str("* ruxc [debug]:: "),
        };
        text.append(message);
        Some(LogLine { sink: LogSink::Stdout, priority: p, text })
    } else if logtype == 1 {
        Some(LogLine { sink: LogSink::Syslog, priority: p, text: String::from_str(message) })
    } else {
        None
    }
}

} // verus!
