//! Log levels and where a message goes.
use vstd::prelude::*;

verus! {

use crate::fmt::{dec_digits, push_dec, push_str};

/// How serious a message is, most serious first.
#[derive(Debug, Clone, Copy, PartialEq, Eq, Structural)]
pub enum Level {
    Error,
    Warn,
    Info,
    Debug,
    Trace,
}

/// The rank of a level: 0 for `Error` up to 4 for `Trace`.
pub open spec fn level_rank(l: Level) -> int {
    match l {
        Level::Error => 0,
        Level::Warn => 1,
        Level::Info => 2,
        Level::Debug => 3,
        Level::Trace => 4,
    }
}

impl Level {
    /// The rank of the level: 0 for `Error` up to 4 for `Trace`.
    pub fn rank(self) -> (r: u8)
        ensures
            r == level_rank(self),
    {
        match self {
            Level::Error => 0,
            Level::Warn => 1,
            Level::Info => 2,
            Level::Debug => 3,
            Level::Trace => 4,
        }
    }

    /// Whether this level is at most as verbose as `other`.
    pub fn le(self, other: Level) -> (r: bool)
        ensures
            r == (level_rank(self) <= level_rank(other)),
    {
        self.rank() <= other.rank()
    }

    /// The name a log line shows for the level.
    pub fn name(self) -> (r: &'static str)
        ensures
            r@ == level_name(self)@,
    {
        match self {
            Level::Error => "ERROR",
            Level::Warn => "WARN",
            Level::Info => "INFO",
            Level::Debug => "DEBUG",
            Level::Trace => "TRACE",
        }
    }
}

/// The name a log line shows for a level.
pub open spec fn level_name(l: Level) -> &'static str {
    match l {
        Level::Error => "ERROR",
        Level::Warn => "WARN",
        Level::Info => "INFO",
        Level::Debug => "DEBUG",
        Level::Trace => "TRACE",
    }
}

/// The text a log message writes: unless it continues a line, `[LEVEL] `
/// and, when a place is given, `file:line ` before the message; a new line
/// after it when asked.
pub open spec fn log_text(
    level: Level,
    msg: Seq<char>,
    place: Option<(Seq<char>, u32)>,
    cont_line: bool,
    newline: bool,
) -> Seq<char> {
    let prefix = if cont_line {
        Seq::empty()
    } else {
        seq!['['] + level_name(level)@ + seq![']', ' '] + match place {
            Some((file, line)) => file + seq![':'] + dec_digits(line as nat) + seq![' '],
            None => Seq::empty(),
        }
    };
    prefix + msg + if newline {
        seq!['\n']
    } else {
        Seq::empty()
    }
}

/// Formats a log message (see `log_text`).
pub fn format_log(level: Level, msg: &str, place: Option<(&str, u32)>, cont_line: bool, newline: bool) -> (r: Vec<char>)
    ensures
        r@ == log_text(
            level,
            msg@,
            match place {
                Some((file, line)) => Some((file@, line)),
                None => None,
            },
            cont_line,
            newline,
        ),
{
    let mut out: Vec<char> = Vec::new();
    if !cont_line {
        out.push('[');
        push_str(&mut out, level.name());
        out.push(']');
        out.push(' ');
        match place {
            Some((file, line)) => {
                push_str(&mut out, file);
                out.push(':');
                push_dec(&mut out, line as u64);
                out.push(' ');
            },
            None => {},
        }
    }
    push_str(&mut out, msg);
    if newline {
        out.push('\n');
    }
    proof {
        let prefix = if cont_line {
            Seq::empty()
        } else {
            seq!['['] + level_name(level)@ + seq![']', ' '] + match place {
                Some((file, line)) => file@ + seq![':'] + dec_digits(line as nat) + seq![' '],
                None => Seq::<char>::empty(),
            }
        };
        assert(out@ =~= prefix + msg@ + if newline {
            seq!['\n']
        } else {
            Seq::<char>::empty()
        });
    }
    out
}

/// The most verbose levels shown on the console and on the serial port.
#[derive(Debug, Clone, Copy, PartialEq, Eq, Structural)]
pub struct LogLevels {
    pub console: Level,
    pub serial: Level,
}

impl LogLevels {
    /// Warnings on the console, information on the serial port.
    pub fn new() -> (r: LogLevels)
        ensures
            r == (LogLevels { console: Level::Warn, serial: Level::Info }),
    {
        LogLevels { console: Level::Warn, serial: Level::Info }
    }

    /// Sets both levels.
    pub fn set_level(&mut self, console_level: Level, serial_level: Level)
        ensures
            *final(self) == (LogLevels { console: console_level, serial: serial_level }),
    {
        self.console = console_level;
        self.serial = serial_level;
    }

    /// The text a log message `msg` of `level`, logged at line `line` of
    /// `file`, writes to the serial port and to the console, each `None` when
    /// the level is too verbose for it (see `log_text`).
    pub fn log_texts(
        &self,
        level: Level,
        msg: &str,
        file: &str,
        line: u32,
        cont_line: bool,
        newline: bool,
    ) -> (r: (Option<Vec<char>>, Option<Vec<char>>))
        ensures
            match r.0 {
                Some(t) => level_rank(level) <= level_rank(self.serial) && t@ == log_text(
                    level,
                    msg@,
                    Some((file@, line)),
                    cont_line,
                    newline,
                ),
                None => level_rank(level) > level_rank(self.serial),
            },
            match r.1 {
                Some(t) => level_rank(level) <= level_rank(self.console) && t@ == log_text(
                    level,
                    msg@,
                    None,
                    cont_line,
                    newline,
                ),
                None => level_rank(level) > level_rank(self.console),
            },
    {
        let (to_serial, to_console) = self.targets(level);
        let serial = if to_serial {
            Some(format_log(level, msg, Some((file, line)), cont_line, newline))
        } else {
            None
        };
        let console = if to_console {
            Some(format_log(level, msg, None, cont_line, newline))
        } else {
            None
        };
        (serial, console)
    }

    /// Where a message of `level` goes: to the serial port when it is at
    /// most as verbose as the serial level, to the console likewise.
    pub fn targets(&self, level: Level) -> (r: (bool, bool))
        ensures
            r.0 == (level_rank(level) <= level_rank(self.serial)),
            r.1 == (level_rank(level) <= level_rank(self.console)),
    {
        (level.le(self.serial), level.le(self.console))
    }
}

} // verus!
