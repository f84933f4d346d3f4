//! Log lines as `slog` prints them: debug at `-v`, trace at `-vv`.
use vstd::prelude::*;
use crate::clock::WallStamp;
use crate::text::{dec_pad, push_str, push_u64_padded, string_of};

verus! {

pub const TAG_INFO: &'static str = "info";
pub const TAG_WARN: &'static str = "warn";
pub const TAG_DEBUG: &'static str = "debug";
pub const TAG_ERROR: &'static str = "error";
pub const TAG_TRACE: &'static str = "trace";
pub const TAG_FATAL: &'static str = "fatal";
pub const DEFAULT_LOG_STEM: &'static str = "cargopit.log";
pub const VERBOSITY_DEBUG: u8 = 1;
pub const VERBOSITY_TRACE: u8 = 2;
pub const COLOR_RESET: &'static str = "\x1b[0m";
pub const COLOR_RED: &'static str = "\x1b[31m";
pub const COLOR_GREEN: &'static str = "\x1b[32m";
pub const COLOR_YELLOW: &'static str = "\x1b[33m";
pub const COLOR_BLUE: &'static str = "\x1b[34m";
pub const COLOR_MAGENTA: &'static str = "\x1b[35m";
pub const COLOR_CYAN: &'static str = "\x1b[36m";
pub const LOG_EXTENSION: &'static str = "log";

/// How serious a log line is.
#[derive(Clone, Copy, Debug, PartialEq, Eq, Structural)]
pub enum Level {
    Info,
    Warn,
    Debug,
    Error,
    Trace,
    Fatal,
}

impl Level {
    pub open spec fn spec_tag(self) -> Seq<char> {
        match self {
            Level::Info => TAG_INFO@,
            Level::Warn => TAG_WARN@,
            Level::Debug => TAG_DEBUG@,
            Level::Error => TAG_ERROR@,
            Level::Trace => TAG_TRACE@,
            Level::Fatal => TAG_FATAL@,
        }
    }

    pub open spec fn spec_color(self) -> Seq<char> {
        match self {
            Level::Info => COLOR_GREEN@,
            Level::Warn => COLOR_YELLOW@,
            Level::Debug => COLOR_BLUE@,
            Level::Error => COLOR_RED@,
            Level::Trace => COLOR_CYAN@,
            Level::Fatal => COLOR_MAGENTA@,
        }
    }

    /// Debug lines need verbosity 1, trace lines 2; the rest always show.
    pub open spec fn spec_enabled(self, verbosity: u8) -> bool {
        match self {
            Level::Debug => verbosity >= VERBOSITY_DEBUG,
            Level::Trace => verbosity >= VERBOSITY_TRACE,
            _ => true,
        }
    }

    /// The level's tag.
    pub fn tag(self) -> (r: &'static str)
        ensures
            r@ == self.spec_tag(),
    {
        match self {
            Level::Info => TAG_INFO,
            Level::Warn => TAG_WARN,
            Level::Debug => TAG_DEBUG,
            Level::Error => TAG_ERROR,
            Level::Trace => TAG_TRACE,
            Level::Fatal => TAG_FATAL,
        }
    }

    /// Whether the level shows at `verbosity`.
    pub fn enabled(self, verbosity: u8) -> (r: bool)
        ensures
            r == self.spec_enabled(verbosity),
    {
        match self {
            Level::Debug => verbosity >= VERBOSITY_DEBUG,
            Level::Trace => verbosity >= VERBOSITY_TRACE,
            _ => true,
        }
    }

    /// The terminal colour of the level's tag.
    pub fn color(self) -> (r: &'static str)
        ensures
            r@ == self.spec_color(),
    {
        match self {
            Level::Info => COLOR_GREEN,
            Level::Warn => COLOR_YELLOW,
            Level::Debug => COLOR_BLUE,
            Level::Error => COLOR_RED,
            Level::Trace => COLOR_CYAN,
            Level::Fatal => COLOR_MAGENTA,
        }
    }
}

/// `<tag> message`.
pub fn format_line(level: Level, message: &str) -> (s: String)
    ensures
        s@ == "<"@ + level.spec_tag() + "> "@ + message@,
{
    let mut s = string_of("<");
    push_str(&mut s, level.tag());
    push_str(&mut s, "> ");
    push_str(&mut s, message);
    s
}

/// `hh:mm:ss.mmm <tag> message`, the tag in the level's colour.
pub open spec fn spec_record(level: Level, message: Seq<char>, stamp: WallStamp) -> Seq<char> {
    dec_pad(stamp.hour as nat, 2) + ":"@ + dec_pad(stamp.minute as nat, 2) + ":"@ + dec_pad(stamp.second as nat, 2) + "."@
        + dec_pad(stamp.millis as nat, 3) + " "@ + level.spec_color() + "<"@ + level.spec_tag() + ">"@ + COLOR_RESET@
        + " "@ + message
}

/// The screen and file line of a message.
pub fn format_record(level: Level, message: &str, stamp: &WallStamp) -> (s: String)
    ensures
        s@ == spec_record(level, message@, *stamp),
{
    let mut s = String::new();
    push_u64_padded(&mut s, stamp.hour as u64, 2);
    push_str(&mut s, ":");
    push_u64_padded(&mut s, stamp.minute as u64, 2);
    push_str(&mut s, ":");
    push_u64_padded(&mut s, stamp.second as u64, 2);
    push_str(&mut s, ".");
    push_u64_padded(&mut s, stamp.millis as u64, 3);
    push_str(&mut s, " ");
    push_str(&mut s, level.color());
    push_str(&mut s, "<");
    push_str(&mut s, level.tag());
    push_str(&mut s, ">");
    push_str(&mut s, COLOR_RESET);
    push_str(&mut s, " ");
    push_str(&mut s, message);
    assert(s@ =~= spec_record(level, message@, *stamp));
    s
}

/// The line to print for a message at `verbosity`, or none when its level is hidden.
pub fn emit(verbosity: u8, level: Level, message: &str, stamp: &WallStamp) -> (r: Option<String>)
    ensures
        match r {
            Some(s) => level.spec_enabled(verbosity) && s@ == spec_record(level, message@, *stamp),
            None => !level.spec_enabled(verbosity),
        },
{
    if !level.enabled(verbosity) {
        return None;
    }
    Some(format_record(level, message, stamp))
}

/// A year as `{:04}` writes it: zero-padded to four characters, the sign counted.
pub open spec fn year_text(year: i32) -> Seq<char> {
    if year >= 0 { dec_pad(year as nat, 4) } else { "-"@ + dec_pad((-year) as nat, 3) }
}

/// `stem-yyyy-mm-dd.log`.
pub fn dated_name(stem: &str, stamp: &WallStamp) -> (s: String)
    ensures
        s@ == stem@ + "-"@ + year_text(stamp.year) + "-"@ + dec_pad(stamp.month as nat, 2) + "-"@ + dec_pad(
            stamp.day as nat,
            2,
        ) + "."@ + LOG_EXTENSION@,
{
    let mut s = string_of(stem);
    push_str(&mut s, "-");
    if stamp.year >= 0 {
        push_u64_padded(&mut s, stamp.year as u64, 4);
    } else {
        push_str(&mut s, "-");
        let y: u64 = if stamp.year == i32::MIN { 2147483648u64 } else { (-stamp.year) as u64 };
        push_u64_padded(&mut s, y, 3);
    }
    push_str(&mut s, "-");
    push_u64_padded(&mut s, stamp.month as u64, 2);
    push_str(&mut s, "-");
    push_u64_padded(&mut s, stamp.day as u64, 2);
    push_str(&mut s, ".");
    push_str(&mut s, LOG_EXTENSION);
    assert(s@ =~= stem@ + "-"@ + year_text(stamp.year) + "-"@ + dec_pad(stamp.month as nat, 2) + "-"@ + dec_pad(
        stamp.day as nat,
        2,
    ) + "."@ + LOG_EXTENSION@);
    s
}

} // verus!
