//! The console: its log levels, the line and coloured parts each record
//! gets, where it goes, the in-game history, time stamps and the panic
//! report.

use crate::text::{ascii_lower, decimal, push_char, push_decimal, push_str, str_equals};
use std::str::FromStr;
use vstd::prelude::*;

verus! {

/// How severe a log record is, from most to least severe.
#[derive(Clone, Copy, Debug, PartialEq, Eq, Structural)]
pub enum LogLevel {
    Error,
    Warn,
    Info,
    Debug,
    Trace,
}

/// The position of a level in severity order: `Error` is 1, `Trace` 5.
pub open spec fn level_rank(l: LogLevel) -> int {
    match l {
        LogLevel::Error => 1,
        LogLevel::Warn => 2,
        LogLevel::Info => 3,
        LogLevel::Debug => 4,
        LogLevel::Trace => 5,
    }
}

impl LogLevel {
    /// The position of this level in severity order: `Error` is 1, `Trace` 5.
    pub fn rank(self) -> (r: u8)
        ensures
            r == level_rank(self),
    {
        match self {
            LogLevel::Error => 1,
            LogLevel::Warn => 2,
            LogLevel::Info => 3,
            LogLevel::Debug => 4,
            LogLevel::Trace => 5,
        }
    }
}

/// Equal but for the case of ASCII letters.
pub open spec fn eq_ignore_ascii_case(a: Seq<char>, b: Seq<char>) -> bool {
    a.len() == b.len() && forall|i: int| 0 <= i < a.len() ==> ascii_lower(a[i]) == ascii_lower(b[i])
}

/// The level names `log` reads, in lower case.
pub open spec fn level_name(l: LogLevel) -> Seq<char> {
    match l {
        LogLevel::Error => seq!['e', 'r', 'r', 'o', 'r'],
        LogLevel::Warn => seq!['w', 'a', 'r', 'n'],
        LogLevel::Info => seq!['i', 'n', 'f', 'o'],
        LogLevel::Debug => seq!['d', 'e', 'b', 'u', 'g'],
        LogLevel::Trace => seq!['t', 'r', 'a', 'c', 'e'],
    }
}

/// The level that `log::Level::from_str` reads from `s`: a level name in any
/// mix of ASCII cases.
pub open spec fn spec_level_from_str(s: Seq<char>) -> Option<LogLevel> {
    if eq_ignore_ascii_case(s, level_name(LogLevel::Error)) {
        Some(LogLevel::Error)
    } else if eq_ignore_ascii_case(s, level_name(LogLevel::Warn)) {
        Some(LogLevel::Warn)
    } else if eq_ignore_ascii_case(s, level_name(LogLevel::Info)) {
        Some(LogLevel::Info)
    } else if eq_ignore_ascii_case(s, level_name(LogLevel::Debug)) {
        Some(LogLevel::Debug)
    } else if eq_ignore_ascii_case(s, level_name(LogLevel::Trace)) {
        Some(LogLevel::Trace)
    } else {
        None
    }
}

/// `log::Level::from_str`: the level whose name `s` is, ignoring ASCII case
/// (`"OFF"` names no level).
#[verifier::external_body]
fn parse_level(s: &str) -> (r: Option<LogLevel>)
    ensures
        r == spec_level_from_str(s@),
{
    match log::Level::from_str(s) {
        Ok(log::Level::Error) => Some(LogLevel::Error),
        Ok(log::Level::Warn) => Some(LogLevel::Warn),
        Ok(log::Level::Info) => Some(LogLevel::Info),
        Ok(log::Level::Debug) => Some(LogLevel::Debug),
        Ok(log::Level::Trace) => Some(LogLevel::Trace),
        Err(_) => None,
    }
}

/// The level spelt exactly, in lower case, by `s`.
pub open spec fn spec_exact_level(s: Seq<char>) -> Option<LogLevel> {
    if s == level_name(LogLevel::Trace) {
        Some(LogLevel::Trace)
    } else if s == level_name(LogLevel::Debug) {
        Some(LogLevel::Debug)
    } else if s == level_name(LogLevel::Info) {
        Some(LogLevel::Info)
    } else if s == level_name(LogLevel::Warn) {
        Some(LogLevel::Warn)
    } else if s == level_name(LogLevel::Error) {
        Some(LogLevel::Error)
    } else {
        None
    }
}

/// The level spelt exactly, in lower case, by `s`.
pub fn _log_level_from_str(s: &str) -> (r: Option<LogLevel>)
    ensures
        r == spec_exact_level(s@),
{
    proof {
        reveal_strlit("trace");
        reveal_strlit("debug");
        reveal_strlit("info");
        reveal_strlit("warn");
        reveal_strlit("error");
        assert("trace"@ =~= level_name(LogLevel::Trace));
        assert("debug"@ =~= level_name(LogLevel::Debug));
        assert("info"@ =~= level_name(LogLevel::Info));
        assert("warn"@ =~= level_name(LogLevel::Warn));
        assert("error"@ =~= level_name(LogLevel::Error));
    }
    if str_equals(s, "trace") {
        Some(LogLevel::Trace)
    } else if str_equals(s, "debug") {
        Some(LogLevel::Debug)
    } else if str_equals(s, "info") {
        Some(LogLevel::Info)
    } else if str_equals(s, "warn") {
        Some(LogLevel::Warn)
    } else if str_equals(s, "error") {
        Some(LogLevel::Error)
    } else {
        None
    }
}

/// The terminal log level a setting's value names, read as `log` reads
/// level names.
pub fn term_log_level(value: &str) -> (r: Option<LogLevel>)
    ensures
        r == spec_level_from_str(value@),
{
    parse_level(value)
}

/// The log-file level a setting's value names, read as `log` reads level
/// names.
pub fn file_log_level(value: &str) -> (r: Option<LogLevel>)
    ensures
        r == spec_level_from_str(value@),
{
    parse_level(value)
}

/// The level an optional environment value names.
pub open spec fn env_level(value: Option<Seq<char>>) -> Option<LogLevel> {
    match value {
        Some(s) => spec_level_from_str(s),
        None => None,
    }
}

/// The first of two optional levels that is there.
pub open spec fn first_level(a: Option<LogLevel>, b: Option<LogLevel>) -> Option<LogLevel> {
    match a {
        Some(l) => Some(l),
        None => b,
    }
}

/// The level, or `default` when there is none.
pub open spec fn level_or(a: Option<LogLevel>, default: LogLevel) -> LogLevel {
    match a {
        Some(l) => l,
        None => default,
    }
}

/// The text of an optional string.
pub open spec fn opt_view(s: Option<&str>) -> Option<Seq<char>> {
    match s {
        Some(t) => Some(t@),
        None => None,
    }
}

/// Reads a level from an optional environment value.
fn level_from_env(value: Option<&str>) -> (r: Option<LogLevel>)
    ensures
        r == env_level(opt_view(value)),
{
    match value {
        Some(s) => parse_level(s),
        None => None,
    }
}

/// How many lines the in-game history holds.
pub const HISTORY_LINES: usize = 200;

/// The texts of a sequence of strings.
pub open spec fn line_texts(s: Seq<String>) -> Seq<Seq<char>> {
    s.map_values(|x: String| x@)
}

/// The console's log levels, whether it is shown, and the in-game history
/// of the last lines printed (oldest first), with whether it changed since
/// it was last drawn.
pub struct Console {
    log_level_term: LogLevel,
    log_level_file: LogLevel,
    active: bool,
    history: Vec<String>,
    history_parts: Vec<Vec<Segment>>,
    dirty: bool,
}

/// A record that the console took: its line, and whether it goes to the log
/// file and to the terminal (and the in-game history).
pub struct LogEntry {
    pub text: String,
    pub to_file: bool,
    pub to_terminal: bool,
}

/// How the console names a level in its lines.
pub open spec fn level_label(l: LogLevel) -> Seq<char> {
    match l {
        LogLevel::Error => "ERROR"@,
        LogLevel::Warn => "WARN"@,
        LogLevel::Info => "INFO"@,
        LogLevel::Debug => "DEBUG"@,
        LogLevel::Trace => "TRACE"@,
    }
}

/// The line of a record from source `file` at `line`:
/// `[<short path>:<line>][<LEVEL>] <message>`.
pub open spec fn spec_log_line(file: Seq<char>, line: u32, level: LogLevel, message: Seq<char>) -> Seq<
    char,
> {
    seq!['['] + spec_short_source_path(file) + seq![':'] + decimal(line as nat) + "]["@
        + level_label(level) + "] "@ + message
}

/// The text of an optional string, empty when absent.
pub open spec fn text_or_empty(s: Option<&str>) -> Seq<char> {
    match s {
        Some(t) => t@,
        None => Seq::empty(),
    }
}

/// Appends how the console names `level`.
fn push_level_label(out: &mut String, level: LogLevel)
    ensures
        final(out)@ == old(out)@ + level_label(level),
{
    match level {
        LogLevel::Error => push_str(out, "ERROR"),
        LogLevel::Warn => push_str(out, "WARN"),
        LogLevel::Info => push_str(out, "INFO"),
        LogLevel::Debug => push_str(out, "DEBUG"),
        LogLevel::Trace => push_str(out, "TRACE"),
    }
}

/// The console's line for a record from source `file` at `line` (0 when
/// unknown) with its formatted `message`.
pub fn log_line(file: Option<&str>, line: Option<u32>, level: LogLevel, message: &str) -> (r:
    String)
    ensures
        r@ == spec_log_line(
            text_or_empty(file),
            match line {
                Some(n) => n,
                None => 0u32,
            },
            level,
            message@,
        ),
{
    let f = match file {
        Some(t) => short_source_path(t),
        None => short_source_path(""),
    };
    let n: u32 = match line {
        Some(n) => n,
        None => 0,
    };
    let mut out = String::new();
    push_char(&mut out, '[');
    push_str(&mut out, f.as_str());
    push_char(&mut out, ':');
    push_decimal(&mut out, n as u64);
    push_str(&mut out, "][");
    push_level_label(&mut out, level);
    push_str(&mut out, "] ");
    push_str(&mut out, message);
    proof {
        if file is None {
            reveal_strlit("");
        }
    }
    assert(out@ =~= spec_log_line(text_or_empty(file), n, level, message@));
    out
}

/// A colour the console draws a part of a line in.
#[derive(Clone, Copy, Debug, PartialEq, Eq, Structural)]
pub enum Colour {
    Green,
    Aqua,
    Red,
    Yellow,
    Blue,
}

/// The colour the console draws the name of `level` in.
pub open spec fn spec_level_colour(level: LogLevel) -> Colour {
    match level {
        LogLevel::Debug => Colour::Green,
        LogLevel::Error => Colour::Red,
        LogLevel::Warn => Colour::Yellow,
        LogLevel::Info => Colour::Aqua,
        LogLevel::Trace => Colour::Blue,
    }
}

/// The colour the console draws the name of `level` in: errors red,
/// warnings yellow, information aqua, debugging green, tracing blue.
pub fn level_colour(level: LogLevel) -> (c: Colour)
    ensures
        c == spec_level_colour(level),
{
    match level {
        LogLevel::Debug => Colour::Green,
        LogLevel::Error => Colour::Red,
        LogLevel::Warn => Colour::Yellow,
        LogLevel::Info => Colour::Aqua,
        LogLevel::Trace => Colour::Blue,
    }
}

/// A part of a history line: its text, in a colour or the default one.
pub struct Segment {
    pub text: String,
    pub colour: Option<Colour>,
}

/// The texts and colours of a line's parts.
pub open spec fn segments_view(parts: Seq<Segment>) -> Seq<(Seq<char>, Option<Colour>)> {
    parts.map_values(|g: Segment| (g.text@, g.colour))
}

/// The parts of each of a sequence of lines.
pub open spec fn lines_segments(lines: Seq<Vec<Segment>>) -> Seq<Seq<(Seq<char>, Option<Colour>)>> {
    lines.map_values(|l: Vec<Segment>| segments_view(l@))
}

/// The parts of the history line of a record: the brackets in the default
/// colour, the short source path green, the line number aqua, the level's
/// name in its colour, then the message.
pub open spec fn spec_log_segments(
    file: Seq<char>,
    line: u32,
    level: LogLevel,
    message: Seq<char>,
) -> Seq<(Seq<char>, Option<Colour>)> {
    seq![
        ("["@, None),
        (spec_short_source_path(file), Some(Colour::Green)),
        (":"@, None),
        (decimal(line as nat), Some(Colour::Aqua)),
        ("]"@, None),
        ("["@, None),
        (level_label(level), Some(spec_level_colour(level))),
        ("] "@, None),
        (message, None),
    ]
}

/// The parts of a line that holds nothing: one empty part.
pub open spec fn blank_segments() -> Seq<(Seq<char>, Option<Colour>)> {
    seq![(Seq::<char>::empty(), None)]
}

/// A part holding `text` in `colour`.
fn segment_of(text: &str, colour: Option<Colour>) -> (g: Segment)
    ensures
        g.text@ == text@,
        g.colour == colour,
{
    let mut t = String::new();
    push_str(&mut t, text);
    Segment { text: t, colour }
}

/// The coloured parts of the history line of a record from source `file`
/// at `line` (0 when unknown).
pub fn log_segments(file: Option<&str>, line: Option<u32>, level: LogLevel, message: &str) -> (r:
    Vec<Segment>)
    ensures
        segments_view(r@) == spec_log_segments(
            text_or_empty(file),
            match line {
                Some(n) => n,
                None => 0u32,
            },
            level,
            message@,
        ),
{
    let f = match file {
        Some(t) => short_source_path(t),
        None => short_source_path(""),
    };
    let n: u32 = match line {
        Some(n) => n,
        None => 0,
    };
    let mut digits = String::new();
    push_decimal(&mut digits, n as u64);
    assert(digits@ =~= decimal(n as nat));
    let mut label = String::new();
    push_level_label(&mut label, level);
    assert(label@ =~= level_label(level));
    let mut r: Vec<Segment> = Vec::new();
    r.push(segment_of("[", None));
    r.push(Segment { text: f, colour: Some(Colour::Green) });
    r.push(segment_of(":", None));
    r.push(Segment { text: digits, colour: Some(Colour::Aqua) });
    r.push(segment_of("]", None));
    r.push(segment_of("[", None));
    r.push(Segment { text: label, colour: Some(level_colour(level)) });
    r.push(segment_of("] ", None));
    r.push(segment_of(message, None));
    proof {
        if file is None {
            reveal_strlit("");
        }
    }
    let ghost want = spec_log_segments(text_or_empty(file), n, level, message@);
    assert forall|i: int| 0 <= i < 9 implies #[trigger] segments_view(r@)[i] == want[i] by {}
    assert(segments_view(r@) =~= want);
    r
}

impl Console {
    /// The console is well formed: its history holds 200 lines, with the
    /// coloured parts of each.
    pub closed spec fn wf(&self) -> bool {
        self.history@.len() == HISTORY_LINES && self.history_parts@.len() == HISTORY_LINES
    }

    /// A hidden console that prints records up to `Info` and files them up
    /// to `Trace`, with a history of 200 empty lines.
    pub fn new() -> (c: Console)
        ensures
            c.term_level() == LogLevel::Info,
            c.file_level() == LogLevel::Trace,
            !c.is_shown(),
            c.wf(),
            c.history() == Seq::new(HISTORY_LINES as nat, |i: int| Seq::<char>::empty()),
            c.history_colours() == Seq::new(HISTORY_LINES as nat, |i: int| blank_segments()),
            !c.is_dirty(),
    {
        let mut history: Vec<String> = Vec::new();
        let mut i: usize = 0;
        while i < HISTORY_LINES
            invariant
                i <= HISTORY_LINES,
                history@.len() == i,
                forall|k: int| 0 <= k < i ==> #[trigger] history@[k]@ == Seq::<char>::empty(),
            decreases HISTORY_LINES - i,
        {
            history.push(String::new());
            i = i + 1;
        }
        let mut parts: Vec<Vec<Segment>> = Vec::new();
        let mut j: usize = 0;
        while j < HISTORY_LINES
            invariant
                j <= HISTORY_LINES,
                parts@.len() == j,
                forall|k: int| 0 <= k < j ==> #[trigger] segments_view(parts@[k]@) == blank_segments(),
            decreases HISTORY_LINES - j,
        {
            let blank = vec![Segment { text: String::new(), colour: None }];
            assert(segments_view(blank@) =~= blank_segments());
            parts.push(blank);
            j = j + 1;
        }
        let c = Console {
            log_level_term: LogLevel::Info,
            log_level_file: LogLevel::Trace,
            active: false,
            history,
            history_parts: parts,
            dirty: false,
        };
        assert(c.history() =~= Seq::new(HISTORY_LINES as nat, |i: int| Seq::<char>::empty()));
        assert(c.history_colours() =~= Seq::new(HISTORY_LINES as nat, |i: int| blank_segments()));
        c
    }

    /// The lines of the in-game history, oldest first.
    pub closed spec fn history(&self) -> Seq<Seq<char>> {
        line_texts(self.history@)
    }

    /// The coloured parts of each line of the in-game history, oldest
    /// first.
    pub closed spec fn history_colours(&self) -> Seq<Seq<(Seq<char>, Option<Colour>)>> {
        lines_segments(self.history_parts@)
    }

    /// Whether the history changed since it was last drawn.
    pub closed spec fn is_dirty(&self) -> bool {
        self.dirty
    }

    /// The most verbose level printed to the terminal.
    pub closed spec fn term_level(&self) -> LogLevel {
        self.log_level_term
    }

    /// The most verbose level written to the log file.
    pub closed spec fn file_level(&self) -> LogLevel {
        self.log_level_file
    }

    /// Whether the console is shown.
    pub closed spec fn is_shown(&self) -> bool {
        self.active
    }

    /// The most verbose level printed to the terminal.
    pub fn log_level_term(&self) -> (l: LogLevel)
        ensures
            l == self.term_level(),
    {
        self.log_level_term
    }

    /// The most verbose level written to the log file.
    pub fn log_level_file(&self) -> (l: LogLevel)
        ensures
            l == self.file_level(),
    {
        self.log_level_file
    }

    /// Sets the levels from the settings' values and the environment:
    /// `RUST_LOG` rules the terminal, then `LOG_LEVEL`, then the setting, then
    /// `Info`; `LOG_LEVEL_FILE` rules the file, then `LOG_LEVEL`, then
    /// `RUST_LOG`, then the setting, then `Debug`. Values that name no level
    /// count as absent. Returns whether network packet logging is to be
    /// enabled: when the file level is `Debug` or more verbose.
    pub fn configure(
        &mut self,
        term_setting: &str,
        file_setting: &str,
        rust_log: Option<&str>,
        log_level: Option<&str>,
        log_level_file: Option<&str>,
    ) -> (network_debug: bool)
        ensures
            final(self).term_level() == level_or(
                first_level(
                    env_level(opt_view(rust_log)),
                    first_level(env_level(opt_view(log_level)), spec_level_from_str(term_setting@)),
                ),
                LogLevel::Info,
            ),
            final(self).file_level() == level_or(
                first_level(
                    env_level(opt_view(log_level_file)),
                    first_level(
                        env_level(opt_view(log_level)),
                        first_level(
                            env_level(opt_view(rust_log)),
                            spec_level_from_str(file_setting@),
                        ),
                    ),
                ),
                LogLevel::Debug,
            ),
            final(self).is_shown() == old(self).is_shown(),
            final(self).history() == old(self).history(),
            final(self).history_colours() == old(self).history_colours(),
            final(self).is_dirty() == old(self).is_dirty(),
            final(self).wf() == old(self).wf(),
            network_debug == (level_rank(final(self).file_level()) >= level_rank(LogLevel::Debug)),
    {
        self.log_level_term = match term_log_level(term_setting) {
            Some(l) => l,
            None => LogLevel::Info,
        };
        self.log_level_file = match file_log_level(file_setting) {
            Some(l) => l,
            None => LogLevel::Debug,
        };
        if let Some(level) = level_from_env(rust_log) {
            self.log_level_term = level;
            self.log_level_file = level;
        }
        if let Some(level) = level_from_env(log_level) {
            self.log_level_term = level;
            self.log_level_file = level;
        }
        if let Some(level) = level_from_env(rust_log) {
            self.log_level_term = level;
        }
        if let Some(level) = level_from_env(log_level_file) {
            self.log_level_file = level;
        }
        self.log_level_file.rank() >= LogLevel::Debug.rank()
    }

    /// Configures as `configure` does and reports whether network packet
    /// logging is to be enabled.
    pub fn configure_and_report(
        &mut self,
        term_setting: &str,
        file_setting: &str,
        rust_log: Option<&str>,
        log_level: Option<&str>,
        log_level_file: Option<&str>,
    ) -> (network_debug: bool)
        ensures
            final(self).term_level() == level_or(
                first_level(
                    env_level(opt_view(rust_log)),
                    first_level(env_level(opt_view(log_level)), spec_level_from_str(term_setting@)),
                ),
                LogLevel::Info,
            ),
            final(self).file_level() == level_or(
                first_level(
                    env_level(opt_view(log_level_file)),
                    first_level(
                        env_level(opt_view(log_level)),
                        first_level(
                            env_level(opt_view(rust_log)),
                            spec_level_from_str(file_setting@),
                        ),
                    ),
                ),
                LogLevel::Debug,
            ),
            final(self).is_shown() == old(self).is_shown(),
            final(self).history() == old(self).history(),
            final(self).history_colours() == old(self).history_colours(),
            final(self).is_dirty() == old(self).is_dirty(),
            final(self).wf() == old(self).wf(),
            network_debug == (level_rank(final(self).file_level()) >= level_rank(LogLevel::Debug)),
    {
        self.configure(term_setting, file_setting, rust_log, log_level, log_level_file);
        self.log_level_file.rank() >= LogLevel::Debug.rank()
    }

    /// Whether the console is shown.
    pub fn _is_active(&self) -> (r: bool)
        ensures
            r == self.is_shown(),
    {
        self.active
    }

    /// Shows a hidden console, hides a shown one.
    pub fn toggle(&mut self)
        ensures
            final(self).is_shown() == !old(self).is_shown(),
            final(self).term_level() == old(self).term_level(),
            final(self).file_level() == old(self).file_level(),
            final(self).history() == old(self).history(),
            final(self).history_colours() == old(self).history_colours(),
            final(self).is_dirty() == old(self).is_dirty(),
            final(self).wf() == old(self).wf(),
    {
        self.active = !self.active;
    }

    /// Shows the console.
    pub fn _activate(&mut self)
        ensures
            final(self).is_shown(),
            final(self).term_level() == old(self).term_level(),
            final(self).file_level() == old(self).file_level(),
            final(self).history() == old(self).history(),
            final(self).history_colours() == old(self).history_colours(),
            final(self).is_dirty() == old(self).is_dirty(),
            final(self).wf() == old(self).wf(),
    {
        self.active = true;
    }

    /// Where a record of `level` goes: to the log file when it is no more
    /// verbose than the file level, to the terminal (and the in-game
    /// history) when it is no more verbose than the terminal level.
    pub fn log_targets(&self, level: LogLevel) -> (r: (bool, bool))
        ensures
            r.0 == (level_rank(level) <= level_rank(self.file_level())),
            r.1 == (level_rank(level) <= level_rank(self.term_level())),
    {
        (level.rank() <= self.log_level_file.rank(), level.rank() <= self.log_level_term.rank())
    }

    /// Takes a record from module `module`, source `file` at `line`, of
    /// `level`, with its formatted `message`. Records from modules under
    /// `mime` are dropped (`None`, nothing changes). Otherwise its line goes
    /// to the log file when `level` is no more verbose than the file level,
    /// and to the terminal when it is no more verbose than the terminal
    /// level; then the line also enters the history, whose oldest line
    /// leaves, and the history is to be drawn again.
    pub fn log(
        &mut self,
        module: Option<&str>,
        file: Option<&str>,
        line: Option<u32>,
        level: LogLevel,
        message: &str,
    ) -> (r: Option<LogEntry>)
        requires
            old(self).wf(),
        ensures
            spec_is_filtered_module(text_or_empty(module)) ==> r is None && final(self).history()
                == old(self).history() && final(self).history_colours() == old(
                self,
            ).history_colours() && final(self).is_dirty() == old(self).is_dirty(),
            !spec_is_filtered_module(text_or_empty(module)) ==> (r matches Some(e) && {
                &&& e.text@ == spec_log_line(
                    text_or_empty(file),
                    match line {
                        Some(n) => n,
                        None => 0u32,
                    },
                    level,
                    message@,
                )
                &&& e.to_file == (level_rank(level) <= level_rank(old(self).file_level()))
                &&& e.to_terminal == (level_rank(level) <= level_rank(old(self).term_level()))
                &&& final(self).history() == if e.to_terminal {
                    old(self).history().drop_first().push(e.text@)
                } else {
                    old(self).history()
                }
                &&& final(self).history_colours() == if e.to_terminal {
                    old(self).history_colours().drop_first().push(
                        spec_log_segments(
                            text_or_empty(file),
                            match line {
                                Some(n) => n,
                                None => 0u32,
                            },
                            level,
                            message@,
                        ),
                    )
                } else {
                    old(self).history_colours()
                }
                &&& final(self).is_dirty() == (e.to_terminal || old(self).is_dirty())
            }),
            final(self).wf(),
            final(self).term_level() == old(self).term_level(),
            final(self).file_level() == old(self).file_level(),
            final(self).is_shown() == old(self).is_shown(),
    {
        let name = match module {
            Some(m) => m,
            None => "",
        };
        proof {
            if module is None {
                reveal_strlit("");
            }
        }
        if is_filtered_module(name) {
            return None;
        }
        let text = log_line(file, line, level, message);
        let (to_file, to_terminal) = self.log_targets(level);
        if to_terminal {
            let ghost old_history = self.history@;
            self.history.remove(0);
            self.history.push(text.clone());
            let ghost old_parts = self.history_parts@;
            let parts = log_segments(file, line, level, message);
            self.history_parts.remove(0);
            self.history_parts.push(parts);
            self.dirty = true;
            assert(line_texts(self.history@) =~= line_texts(old_history).drop_first().push(text@));
            assert(lines_segments(self.history_parts@) =~= lines_segments(
                old_parts,
            ).drop_first().push(segments_view(parts@)));
        }
        Some(LogEntry { text, to_file, to_terminal })
    }

    /// Whether the history is to be drawn again; it is then marked drawn.
    pub fn take_redraw(&mut self) -> (r: bool)
        ensures
            r == old(self).is_dirty(),
            !final(self).is_dirty(),
            final(self).history() == old(self).history(),
            final(self).history_colours() == old(self).history_colours(),
            final(self).wf() == old(self).wf(),
            final(self).term_level() == old(self).term_level(),
            final(self).file_level() == old(self).file_level(),
            final(self).is_shown() == old(self).is_shown(),
    {
        let r = self.dirty;
        self.dirty = false;
        r
    }

    /// The lines of the in-game history, oldest first.
    pub fn history_lines(&self) -> (r: &Vec<String>)
        ensures
            line_texts(r@) == self.history(),
    {
        &self.history
    }

    /// The coloured parts of each line of the in-game history, oldest
    /// first.
    pub fn history_segments(&self) -> (r: &Vec<Vec<Segment>>)
        ensures
            lines_segments(r@) == self.history_colours(),
    {
        &self.history_parts
    }
}

} // verus!

verus! {

/// Modules whose records the console drops: those under `mime`.
pub open spec fn spec_is_filtered_module(module: Seq<char>) -> bool {
    module.len() >= 4 && module.subrange(0, 4) == seq!['m', 'i', 'm', 'e']
}

/// Whether records from `module` are dropped: those from modules under
/// `mime` are.
pub fn is_filtered_module(module: &str) -> (r: bool)
    ensures
        r == spec_is_filtered_module(module@),
{
    let cs = crate::text::chars_of(module);
    if cs.len() < 4 {
        return false;
    }
    let r = cs[0] == 'm' && cs[1] == 'i' && cs[2] == 'm' && cs[3] == 'e';
    proof {
        if r {
            assert(module@.subrange(0, 4) =~= seq!['m', 'i', 'm', 'e']);
        } else {
            assert(module@.subrange(0, 4)[0] == cs@[0]);
            assert(module@.subrange(0, 4)[1] == cs@[1]);
            assert(module@.subrange(0, 4)[2] == cs@[2]);
            assert(module@.subrange(0, 4)[3] == cs@[3]);
        }
    }
    r
}

/// `file` with every backslash turned into a slash.
pub open spec fn slashed(file: Seq<char>) -> Seq<char> {
    file.map_values(|c: char| if c == '\\' { '/' } else { c })
}

/// Whether `src/` starts at `k` in `s`.
pub open spec fn src_at(s: Seq<char>, k: int) -> bool {
    0 <= k && k + 4 <= s.len() && s[k] == 's' && s[k + 1] == 'r' && s[k + 2] == 'c' && s[k + 3]
        == '/'
}

/// The last position at or before `k` where `src/` starts in `s`; `-1` when
/// there is none.
pub open spec fn last_src(s: Seq<char>, k: int) -> int
    decreases k + 1,
{
    if k < 0 {
        -1
    } else if src_at(s, k) {
        k
    } else {
        last_src(s, k - 1)
    }
}

/// A source path as the console shows it: slashes only, and only what
/// follows the last `src/`, when there is one.
pub open spec fn spec_short_source_path(file: Seq<char>) -> Seq<char> {
    let r = slashed(file);
    let k = last_src(r, r.len() - 4);
    if k >= 0 {
        r.subrange(k + 4, r.len() as int)
    } else {
        r
    }
}

/// The source path of a record as the console shows it: backslashes become
/// slashes, and everything up to and including the last `src/` is dropped.
pub fn short_source_path(file: &str) -> (r: String)
    ensures
        r@ == spec_short_source_path(file@),
{
    let cs = crate::text::chars_of(file);
    let ghost target = slashed(file@);
    let mut sl: Vec<char> = Vec::new();
    let mut i: usize = 0;
    while i < cs.len()
        invariant
            cs@ == file@,
            target == slashed(file@),
            i <= cs@.len(),
            sl@ == target.subrange(0, i as int),
        decreases cs@.len() - i,
    {
        let c = if cs[i] == '\\' {
            '/'
        } else {
            cs[i]
        };
        sl.push(c);
        i = i + 1;
        assert(sl@ =~= target.subrange(0, i as int));
    }
    assert(sl@ =~= target);
    // search backwards for the last "src/"
    let n = sl.len();
    let mut found: Option<usize> = None;
    if n >= 4 {
        let mut k: usize = n - 4 + 1;
        while k > 0
            invariant_except_break
                found is None,
            invariant
                sl@ == target,
                n == target.len(),
                n >= 4,
                k <= n - 4 + 1,
                last_src(target, n - 4) == last_src(target, k - 1),
            ensures
                found matches Some(j) ==> last_src(target, n - 4) == j && j + 4 <= n,
                found is None ==> last_src(target, n - 4) == -1,
            decreases k,
        {
            let j = k - 1;
            if sl[j] == 's' && sl[j + 1] == 'r' && sl[j + 2] == 'c' && sl[j + 3] == '/' {
                found = Some(j);
                break;
            }
            k = j;
        }
    } else {
        assert(last_src(target, n - 4) == -1);
    }
    let mut out = String::new();
    match found {
        Some(j) => {
            crate::text::push_chars(&mut out, sl.as_slice().split_at(j + 4).1);
            assert(out@ =~= target.subrange(j + 4, n as int));
        },
        None => {
            crate::text::push_chars(&mut out, sl.as_slice());
            assert(out@ =~= target);
        },
    }
    out
}

/// Two digits for a number below 100: a leading zero below ten.
pub open spec fn two_digits(n: nat) -> Seq<char> {
    if n < 10 {
        seq!['0'] + decimal(n)
    } else {
        decimal(n)
    }
}

/// The log's time stamp for `secs` seconds after the Unix epoch:
/// `epoch+<days>d <hh>:<mm>:<ss> (utc)`.
pub open spec fn spec_epoch_stamp(secs: nat) -> Seq<char> {
    "epoch+"@ + decimal(secs / 86400) + "d "@ + two_digits((secs / 3600) % 24) + ":"@
        + two_digits((secs / 60) % 60) + ":"@ + two_digits(secs % 60) + " (utc)"@
}

/// Appends `n` as two digits (`n` below 100).
fn push_two_digits(out: &mut String, n: u64)
    requires
        n < 100,
    ensures
        final(out)@ == old(out)@ + two_digits(n as nat),
{
    if n < 10 {
        push_char(out, '0');
    }
    push_decimal(out, n);
    assert(final(out)@ =~= old(out)@ + two_digits(n as nat));
}

/// The log's time stamp for `secs` seconds after the Unix epoch.
pub fn format_epoch_stamp(secs: u64) -> (r: String)
    ensures
        r@ == spec_epoch_stamp(secs as nat),
{
    let mut out = String::new();
    crate::text::push_str(&mut out, "epoch+");
    push_decimal(&mut out, secs / 86400);
    crate::text::push_str(&mut out, "d ");
    push_two_digits(&mut out, (secs / 3600) % 24);
    crate::text::push_str(&mut out, ":");
    push_two_digits(&mut out, (secs / 60) % 60);
    crate::text::push_str(&mut out, ":");
    push_two_digits(&mut out, secs % 60);
    crate::text::push_str(&mut out, " (utc)");
    assert(out@ =~= spec_epoch_stamp(secs as nat));
    out
}

/// Whole seconds since the Unix epoch by the system clock
/// (`SystemTime::now().duration_since(UNIX_EPOCH)`), `None` when the clock
/// stands before the epoch. Nothing is stated of the value: it is the time.
#[verifier::external_body]
fn unix_seconds_now() -> Option<u64> {
    match std::time::SystemTime::now().duration_since(std::time::UNIX_EPOCH) {
        Ok(d) => Some(d.as_secs()),
        Err(_) => None,
    }
}

/// The seconds a clock reading stands for: 0 when the clock stood before
/// the epoch (`None`).
pub open spec fn reading_secs(now: Option<u64>) -> nat {
    match now {
        Some(s) => s as nat,
        None => 0,
    }
}

/// The log's time stamp for a clock reading in whole seconds since the
/// epoch; a clock before the epoch (`None`) counts as 0 seconds.
pub fn epoch_stamp_of(now: Option<u64>) -> (r: String)
    ensures
        r@ == spec_epoch_stamp(reading_secs(now)),
{
    let secs = match now {
        Some(s) => s,
        None => 0,
    };
    format_epoch_stamp(secs)
}

/// The log's time stamp for the present moment (0 seconds when the clock
/// stands before the epoch).
pub fn rfc3339_now() -> (r: String)
    ensures
        exists|now: Option<u64>| r@ == spec_epoch_stamp(reading_secs(now)),
{
    let now = unix_seconds_now();
    let r = epoch_stamp_of(now);
    assert(r@ == spec_epoch_stamp(reading_secs(now)));
    r
}

/// Where a panic happened: `file:line:column`.
pub open spec fn spec_panic_location(file: Seq<char>, line: u32, column: u32) -> Seq<char> {
    file + seq![':'] + decimal(line as nat) + seq![':'] + decimal(column as nat)
}

/// Where a panic happened, as the crash report shows it.
pub fn panic_location(file: &str, line: u32, column: u32) -> (r: String)
    ensures
        r@ == spec_panic_location(file@, line, column),
{
    let mut out = String::new();
    push_str(&mut out, file);
    push_char(&mut out, ':');
    push_decimal(&mut out, line as u64);
    push_char(&mut out, ':');
    push_decimal(&mut out, column as u64);
    assert(out@ =~= spec_panic_location(file@, line, column));
    out
}

/// The crash report of a panic: its time stamp, the build, where it
/// happened, its message, the log file and the backtrace.
pub open spec fn spec_panic_header(
    time: Seq<char>,
    build_hash: Seq<char>,
    build_time: Seq<char>,
    location: Seq<char>,
    message: Seq<char>,
    log_file: Seq<char>,
    backtrace: Seq<char>,
) -> Seq<char> {
    "\n\n================ PANIC ================\ntime    : "@ + time + "\nbuild   : "@
        + build_hash + " (built "@ + build_time + ")\nlocation: "@ + location + "\nmessage : "@
        + message + "\nlog file: "@ + log_file
        + "\n---------------- backtrace ----------------\n"@ + backtrace
        + "\n========================================\n"@
}

/// The crash report written to the log when the program panics.
pub fn panic_header(
    time: &str,
    build_hash: &str,
    build_time: &str,
    location: &str,
    message: &str,
    log_file: &str,
    backtrace: &str,
) -> (r: String)
    ensures
        r@ == spec_panic_header(
            time@,
            build_hash@,
            build_time@,
            location@,
            message@,
            log_file@,
            backtrace@,
        ),
{
    let mut out = String::new();
    push_str(&mut out, "\n\n================ PANIC ================\ntime    : ");
    push_str(&mut out, time);
    push_str(&mut out, "\nbuild   : ");
    push_str(&mut out, build_hash);
    push_str(&mut out, " (built ");
    push_str(&mut out, build_time);
    push_str(&mut out, ")\nlocation: ");
    push_str(&mut out, location);
    push_str(&mut out, "\nmessage : ");
    push_str(&mut out, message);
    push_str(&mut out, "\nlog file: ");
    push_str(&mut out, log_file);
    push_str(&mut out, "\n---------------- backtrace ----------------\n");
    push_str(&mut out, backtrace);
    push_str(&mut out, "\n========================================\n");
    assert(out@ =~= spec_panic_header(
        time@,
        build_hash@,
        build_time@,
        location@,
        message@,
        log_file@,
        backtrace@,
    ));
    out
}

/// The name of the crash file of a panic at `secs` seconds since the epoch.
pub fn crash_file_name(secs: u64) -> (r: String)
    ensures
        r@ == "crash-"@ + decimal(secs as nat) + ".log"@,
{
    let mut out = String::new();
    push_str(&mut out, "crash-");
    push_decimal(&mut out, secs);
    push_str(&mut out, ".log");
    assert(out@ =~= "crash-"@ + decimal(secs as nat) + ".log"@);
    out
}

/// The label a line gives a level names that very level: read back the way
/// `log` reads level names (ignoring case), it is that level; and it is
/// written in upper-case letters.
pub proof fn law_level_label_names_its_level(l: LogLevel)
    ensures
        spec_level_from_str(level_label(l)) == Some(l),
        forall|i: int| 0 <= i < level_label(l).len() ==> 'A' <= #[trigger] level_label(l)[i] <= 'Z',
{
    reveal_strlit("ERROR");
    reveal_strlit("WARN");
    reveal_strlit("INFO");
    reveal_strlit("DEBUG");
    reveal_strlit("TRACE");
    let e = level_name(LogLevel::Error);
    let w = level_name(LogLevel::Warn);
    let n = level_name(LogLevel::Info);
    let d = level_name(LogLevel::Debug);
    let t = level_name(LogLevel::Trace);
    let lab = level_label(l);
    match l {
        LogLevel::Error => {
            assert(eq_ignore_ascii_case(lab, e));
        },
        LogLevel::Warn => {
            assert(!eq_ignore_ascii_case(lab, e));
            assert(eq_ignore_ascii_case(lab, w));
        },
        LogLevel::Info => {
            assert(!eq_ignore_ascii_case(lab, e));
            assert(ascii_lower(lab[0]) != w[0]);
            assert(!eq_ignore_ascii_case(lab, w));
            assert(eq_ignore_ascii_case(lab, n));
        },
        LogLevel::Debug => {
            assert(ascii_lower(lab[0]) != e[0]);
            assert(!eq_ignore_ascii_case(lab, e));
            assert(!eq_ignore_ascii_case(lab, w));
            assert(!eq_ignore_ascii_case(lab, n));
            assert(eq_ignore_ascii_case(lab, d));
        },
        LogLevel::Trace => {
            assert(ascii_lower(lab[0]) != e[0]);
            assert(!eq_ignore_ascii_case(lab, e));
            assert(!eq_ignore_ascii_case(lab, w));
            assert(!eq_ignore_ascii_case(lab, n));
            assert(ascii_lower(lab[0]) != d[0]);
            assert(!eq_ignore_ascii_case(lab, d));
            assert(eq_ignore_ascii_case(lab, t));
        },
    }
}

} // verus!
