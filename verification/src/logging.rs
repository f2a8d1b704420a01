//! What is logged, and how a line of the log looks.

use vstd::prelude::*;
use vstd::string::*;

use crate::text::{decimal, same_text, trimmed, wide_decimal_string};

verus! {

/// How much is logged, or how important a message is.
#[derive(Debug, Clone, Copy, PartialEq, Eq, Structural)]
pub enum LogLevel {
    Off,
    Error,
    Warn,
    Info,
    Debug,
    Trace,
}

impl LogLevel {
    /// The place of a level in the order of the levels, the most important first.
    pub open spec fn rank(self) -> nat {
        match self {
            LogLevel::Off => 0,
            LogLevel::Error => 1,
            LogLevel::Warn => 2,
            LogLevel::Info => 3,
            LogLevel::Debug => 4,
            LogLevel::Trace => 5,
        }
    }

    /// The name of a level in the log.
    pub open spec fn name(self) -> Seq<char> {
        match self {
            LogLevel::Off => "OFF"@,
            LogLevel::Error => "ERROR"@,
            LogLevel::Warn => "WARN"@,
            LogLevel::Info => "INFO"@,
            LogLevel::Debug => "DEBUG"@,
            LogLevel::Trace => "TRACE"@,
        }
    }

    fn place(&self) -> (place: u8)
        ensures
            place == self.rank(),
    {
        match self {
            LogLevel::Off => 0,
            LogLevel::Error => 1,
            LogLevel::Warn => 2,
            LogLevel::Info => 3,
            LogLevel::Debug => 4,
            LogLevel::Trace => 5,
        }
    }

    fn text(&self) -> (text: &'static str)
        ensures
            text@ == self.name(),
    {
        match self {
            LogLevel::Off => "OFF",
            LogLevel::Error => "ERROR",
            LogLevel::Warn => "WARN",
            LogLevel::Info => "INFO",
            LogLevel::Debug => "DEBUG",
            LogLevel::Trace => "TRACE",
        }
    }
}

/// The level that a setting asks for, which is `Info` where it names none.
pub open spec fn level_named(setting: Seq<char>) -> LogLevel {
    if setting == "trace"@ {
        LogLevel::Trace
    } else if setting == "debug"@ {
        LogLevel::Debug
    } else if setting == "warn"@ {
        LogLevel::Warn
    } else if setting == "error"@ {
        LogLevel::Error
    } else if setting == "off"@ {
        LogLevel::Off
    } else {
        LogLevel::Info
    }
}

/// The level that an optional setting asks for.
pub open spec fn level_of(setting: Option<&str>) -> LogLevel {
    match setting {
        Some(setting) => level_named(trimmed(setting@)),
        None => LogLevel::Info,
    }
}

/// A line of the log.
pub open spec fn line_of(
    timestamp_ms: u128,
    level: LogLevel,
    target: Seq<char>,
    message: Seq<char>,
) -> Seq<char> {
    "ts_ms="@ + decimal(timestamp_ms as nat) + " level="@ + level.name() + " module="@ + target
        + " message="@ + message
}

/// A logger that lets through what is important enough.
#[derive(Debug, Clone, Copy, PartialEq, Eq, Structural)]
pub struct TerminalLogger {
    pub level: LogLevel,
}

impl TerminalLogger {
    /// Whether messages of a level are logged.
    pub fn enabled(&self, level: LogLevel) -> (answer: bool)
        ensures
            answer == (level.rank() <= self.level.rank()),
    {
        level.place() <= self.level.place()
    }

    /// The line of the log for a message, if it is logged.
    pub fn log(&self, timestamp_ms: u128, level: LogLevel, target: &str, message: &str) -> (line:
        Option<String>)
        ensures
            match line {
                Some(line) => {
                    &&& level.rank() <= self.level.rank()
                    &&& line@ == line_of(timestamp_ms, level, target@, message@)
                },
                None => level.rank() > self.level.rank(),
            },
    {
        if !self.enabled(level) {
            return None;
        }
        let mut line = String::from_str("ts_ms=");
        line.append(wide_decimal_string(timestamp_ms).as_str());
        line.append(" level=");
        line.append(level.text());
        line.append(" module=");
        line.append(target);
        line.append(" message=");
        line.append(message);
        Some(line)
    }
}

/// The level that an optional setting asks for.
pub fn configured_level(setting: Option<&str>) -> (level: LogLevel)
    ensures
        level == level_of(setting),
{
    let setting = match setting {
        Some(setting) => setting.trim(),
        None => {
            return LogLevel::Info;
        },
    };
    if same_text(setting, "trace") {
        LogLevel::Trace
    } else if same_text(setting, "debug") {
        LogLevel::Debug
    } else if same_text(setting, "warn") {
        LogLevel::Warn
    } else if same_text(setting, "error") {
        LogLevel::Error
    } else if same_text(setting, "off") {
        LogLevel::Off
    } else {
        LogLevel::Info
    }
}

/// The logger after it was set up: the one that was there, or one of the level that the setting
/// asks for.
pub open spec fn logger_after(before: Option<TerminalLogger>, setting: Option<&str>) -> Option<
    TerminalLogger,
> {
    match before {
        Some(existing) => Some(existing),
        None => Some(TerminalLogger { level: level_of(setting) }),
    }
}

/// The level of the log, after the logger was set up with a level, given
/// whether it was installed thereby.
pub open spec fn level_after(before: LogLevel, level: LogLevel, installed: bool) -> LogLevel {
    if installed {
        level
    } else {
        before
    }
}

/// The new level of the log once the logger was to be installed, or none where the old one stays
/// because there was a logger already.
pub fn new_max_level(level: LogLevel, installed: bool) -> (change: Option<LogLevel>)
    ensures
        change == (if installed {
            Some(level)
        } else {
            None
        }),
        forall|before: LogLevel|
            #[trigger] level_after(before, level, installed) == match change {
                Some(new) => new,
                None => before,
            },
{
    if installed {
        Some(level)
    } else {
        None
    }
}

/// Sets up the logger, unless there is one already. The result is the level that the setting
/// asks for, which becomes the level of the log where the logger is installed.
pub fn init(logger: &mut Option<TerminalLogger>, setting: Option<&str>) -> (level: LogLevel)
    ensures
        level == level_of(setting),
        *final(logger) == logger_after(*old(logger), setting),
{
    let level = configured_level(setting);
    if logger.is_none() {
        *logger = Some(TerminalLogger { level });
    }
    level
}

/// The first time that the logger is set up, it is installed with the level that the setting asks
/// for, and so is the level of the log.
pub proof fn first_init_sets_the_level(before: LogLevel, setting: Option<&str>)
    ensures
        logger_after(None, setting) == Some(TerminalLogger { level: level_of(setting) }),
        level_after(before, level_of(setting), true) == level_of(setting),
{
}

/// A later time changes neither the logger nor the level of the log, whatever the setting is by
/// then: the logger is not installed again.
pub proof fn later_init_changes_nothing(
    existing: TerminalLogger,
    before: LogLevel,
    setting: Option<&str>,
)
    ensures
        logger_after(Some(existing), setting) == Some(existing),
        level_after(before, level_of(setting), false) == before,
{
}

/// The setting names a level or none: five names change the level, white space around them does
/// not matter, and with any other text, or without a setting, the level is `Info`.
pub proof fn only_names_set_the_level(setting: &str)
    ensures
        trimmed(setting@) == "trace"@ ==> level_of(Some(setting)) is Trace,
        trimmed(setting@) == "debug"@ ==> level_of(Some(setting)) is Debug,
        trimmed(setting@) == "warn"@ ==> level_of(Some(setting)) is Warn,
        trimmed(setting@) == "error"@ ==> level_of(Some(setting)) is Error,
        trimmed(setting@) == "off"@ ==> level_of(Some(setting)) is Off,
        !(level_of(Some(setting)) is Info) ==> trimmed(setting@) == "trace"@ || trimmed(setting@)
            == "debug"@ || trimmed(setting@) == "warn"@ || trimmed(setting@) == "error"@ || trimmed(
            setting@,
        ) == "off"@,
        level_of(None) is Info,
{
    reveal_strlit("trace");
    reveal_strlit("debug");
    reveal_strlit("warn");
    reveal_strlit("error");
    reveal_strlit("off");
    assert("trace"@[0] == 't');
    assert("debug"@[0] == 'd');
    assert("warn"@[0] == 'w');
    assert("error"@[0] == 'e');
    assert("off"@[0] == 'o');
}

/// A more important message is logged wherever a less important one is: errors come first, then
/// warnings, information, debugging and traces, and a log that is off takes none of them.
pub proof fn levels_are_ordered()
    ensures
        LogLevel::Off.rank() < LogLevel::Error.rank() < LogLevel::Warn.rank()
            < LogLevel::Info.rank() < LogLevel::Debug.rank() < LogLevel::Trace.rank(),
{
}

/// A line of the log tells the time, the level by its name, where the message comes from and the
/// message itself, and what was logged can be told from it.
pub proof fn lines_tell_what_was_logged(
    timestamp_ms: u128,
    level: LogLevel,
    target: Seq<char>,
    message: Seq<char>,
)
    ensures
        ({
            let line = line_of(timestamp_ms, level, target, message);
            let time = "ts_ms="@ + decimal(timestamp_ms as nat);
            let rest = " module="@ + target + " message="@ + message;
            &&& level is Off ==> line == time + " level=OFF"@ + rest
            &&& level is Error ==> line == time + " level=ERROR"@ + rest
            &&& level is Warn ==> line == time + " level=WARN"@ + rest
            &&& level is Info ==> line == time + " level=INFO"@ + rest
            &&& level is Debug ==> line == time + " level=DEBUG"@ + rest
            &&& level is Trace ==> line == time + " level=TRACE"@ + rest
        }),
{
    reveal_strlit(" level=");
    reveal_strlit(" level=OFF");
    reveal_strlit(" level=ERROR");
    reveal_strlit(" level=WARN");
    reveal_strlit(" level=INFO");
    reveal_strlit(" level=DEBUG");
    reveal_strlit(" level=TRACE");
    reveal_strlit("OFF");
    reveal_strlit("ERROR");
    reveal_strlit("WARN");
    reveal_strlit("INFO");
    reveal_strlit("DEBUG");
    reveal_strlit("TRACE");
    let line = line_of(timestamp_ms, level, target, message);
    let time = "ts_ms="@ + decimal(timestamp_ms as nat);
    let rest = " module="@ + target + " message="@ + message;
    assert(line =~= time + (" level="@ + level.name()) + rest);
    assert(" level="@ + "OFF"@ =~= " level=OFF"@);
    assert(" level="@ + "ERROR"@ =~= " level=ERROR"@);
    assert(" level="@ + "WARN"@ =~= " level=WARN"@);
    assert(" level="@ + "INFO"@ =~= " level=INFO"@);
    assert(" level="@ + "DEBUG"@ =~= " level=DEBUG"@);
    assert(" level="@ + "TRACE"@ =~= " level=TRACE"@);
}

} // verus!
