//! The decisions of a console logger: the level that its options ask for, which records it
//! lets through, how it shows the level of each record and to which outputs it writes.
use vstd::prelude::*;
use vstd::string::*;
use crate::path::{same_ignoring_case, same_ignoring_case_exec};
use crate::text::chars_of;

verus! {

/// The level of a log record, from the most to the least severe.
#[derive(Clone, Copy, Debug, PartialEq, Eq, Structural)]
pub enum Level {
    Error,
    Warn,
    Info,
    Debug,
    Trace,
}

/// The verbosity of a level: the less severe, the higher.
pub open spec fn verbosity(l: Level) -> int {
    match l {
        Level::Error => 1,
        Level::Warn => 2,
        Level::Info => 3,
        Level::Debug => 4,
        Level::Trace => 5,
    }
}

/// Levels follow the order of severity, from `Error` down through `Warn`, `Info` and
/// `Debug` to `Trace`: a logger at the level `i` steps down that order lets through a record
/// `j` steps down exactly when `j` is no more than `i`.
pub proof fn law_levels_follow_severity(i: int, j: int)
    requires
        0 <= i < 5,
        0 <= j < 5,
    ensures
        ({
            let order = seq![Level::Error, Level::Warn, Level::Info, Level::Debug, Level::Trace];
            (verbosity(order[j]) <= verbosity(order[i])) <==> j <= i
        }),
{
}

/// An option of the logger.
#[derive(Debug)]
pub enum Opt {
    /// The level to log at.
    Level(Level),
    /// The file to log to.
    Filepath(String),
}

/// The level that the options ask for: that of the first level option, or `Info` when
/// there is none.
pub open spec fn opts_level(opts: Seq<Opt>) -> Level
    decreases opts.len(),
{
    if opts.len() == 0 {
        Level::Info
    } else {
        match opts[0] {
            Opt::Level(l) => l,
            _ => opts_level(opts.drop_first()),
        }
    }
}

/// Reading the options of the logger.
pub trait OptsExt {
    /// The level that the options ask for.
    fn level(&self) -> Level;
}

impl OptsExt for Vec<Opt> {
    /// The level of the first level option, or `Info` when there is none.
    fn level(&self) -> (r: Level)
        ensures
            r == opts_level(self@),
    {
        let mut i: usize = 0;
        assert(self@.skip(0) =~= self@);
        while i < self.len()
            invariant
                i <= self@.len(),
                opts_level(self@) == opts_level(self@.skip(i as int)),
            decreases self.len() - i,
        {
            let ghost rest = self@.skip(i as int);
            assert(rest[0] == self@[i as int]);
            assert(rest.drop_first() =~= self@.skip(i + 1));
            if let Opt::Level(l) = &self[i] {
                return *l;
            }
            i = i + 1;
        }
        assert(self@.skip(i as int) =~= Seq::<Opt>::empty());
        Level::Info
    }
}

/// How the level of a record is shown.
#[derive(Clone, Copy, Debug, PartialEq, Eq, Structural)]
pub enum Style {
    Red,
    Yellow,
    Cyan,
    Normal,
    Dimmed,
}

/// The style of each level: errors red, warnings yellow, information cyan, debugging plain
/// and tracing dimmed.
pub open spec fn style_of(l: Level) -> Style {
    match l {
        Level::Error => Style::Red,
        Level::Warn => Style::Yellow,
        Level::Info => Style::Cyan,
        Level::Debug => Style::Normal,
        Level::Trace => Style::Dimmed,
    }
}

/// A logger, with the level it logs at.
#[derive(Clone, Copy, Debug)]
pub struct Logger {
    pub level: Level,
}

impl Logger {
    /// Whether a record of `level` is logged: it is no less severe than the logger's level.
    pub fn enabled(&self, level: Level) -> (r: bool)
        ensures
            r == (verbosity(level) <= verbosity(self.level)),
    {
        rank(level) <= rank(self.level)
    }

    /// How the level of a record is shown.
    pub fn style(level: Level) -> (r: Style)
        ensures
            r == style_of(level),
    {
        match level {
            Level::Error => Style::Red,
            Level::Warn => Style::Yellow,
            Level::Info => Style::Cyan,
            Level::Debug => Style::Normal,
            Level::Trace => Style::Dimmed,
        }
    }

    /// The level that `name` stands for, ignoring case; `Info` for any other name.
    pub fn level_from_str(name: &str) -> (r: Level)
        ensures
            r == level_of_name(name@),
    {
        let s = chars_of(name);
        proof {
            reveal_strlit("error");
            reveal_strlit("ERROR");
            reveal_strlit("warn");
            reveal_strlit("WARN");
            reveal_strlit("debug");
            reveal_strlit("DEBUG");
            reveal_strlit("trace");
            reveal_strlit("TRACE");
        }
        if names(s.as_slice(), "error", "ERROR") {
            Level::Error
        } else if names(s.as_slice(), "warn", "WARN") {
            Level::Warn
        } else if names(s.as_slice(), "debug", "DEBUG") {
            Level::Debug
        } else if names(s.as_slice(), "trace", "TRACE") {
            Level::Trace
        } else {
            Level::Info
        }
    }
}

fn rank(l: Level) -> (r: u8)
    ensures
        r == verbosity(l),
{
    match l {
        Level::Error => 1,
        Level::Warn => 2,
        Level::Info => 3,
        Level::Debug => 4,
        Level::Trace => 5,
    }
}

/// The level that a name stands for, ignoring ASCII case: `error`, `warn`, `debug` and
/// `trace` stand for those levels, anything else for `Info`. A string lowercases to one of
/// these names exactly when this holds: no character outside ASCII lowercases to a letter of
/// them.
pub open spec fn level_of_name(s: Seq<char>) -> Level {
    if same_ignoring_case(s, "error"@, "ERROR"@) {
        Level::Error
    } else if same_ignoring_case(s, "warn"@, "WARN"@) {
        Level::Warn
    } else if same_ignoring_case(s, "debug"@, "DEBUG"@) {
        Level::Debug
    } else if same_ignoring_case(s, "trace"@, "TRACE"@) {
        Level::Trace
    } else {
        Level::Info
    }
}

/// The name a level is shown with.
pub open spec fn level_name(l: Level) -> Seq<char> {
    match l {
        Level::Error => "ERROR"@,
        Level::Warn => "WARN"@,
        Level::Info => "INFO"@,
        Level::Debug => "DEBUG"@,
        Level::Trace => "TRACE"@,
    }
}

/// Whether `s` is the name `lower` (whose upper case is `upper`), ignoring ASCII case.
fn names(s: &[char], lower: &str, upper: &str) -> (r: bool)
    requires
        lower@.len() == upper@.len(),
    ensures
        r == same_ignoring_case(s@, lower@, upper@),
{
    let l = chars_of(lower);
    let u = chars_of(upper);
    same_ignoring_case_exec(s, l.as_slice(), u.as_slice())
}

impl Level {
    /// The name this level is shown with.
    pub fn name(&self) -> (r: String)
        ensures
            r@ == level_name(*self),
    {
        match *self {
            Level::Error => String::from_str("ERROR"),
            Level::Warn => String::from_str("WARN"),
            Level::Info => String::from_str("INFO"),
            Level::Debug => String::from_str("DEBUG"),
            Level::Trace => String::from_str("TRACE"),
        }
    }
}

/// The settings of the console logger: the level it logs at, whether it is silent, whether
/// it shows levels in color, and whether it writes to a file, to standard output and to its
/// buffer.
#[derive(Clone, Copy, Debug, PartialEq, Eq, Structural)]
pub struct LogOpts {
    pub level: Level,
    pub silent: bool,
    pub color: bool,
    pub file: bool,
    pub stdout: bool,
    pub buffer: bool,
}

/// What a record is written as and where: the label of its level, the style the label is
/// shown in on standard output and in the buffer (the file always gets it plain), and the
/// outputs it goes to.
#[derive(Debug)]
pub struct Entry {
    pub label: String,
    pub style: Style,
    pub stdout: bool,
    pub buffer: bool,
    pub file: bool,
}

/// Whether an entry has the given label and style and goes to the outputs that the settings
/// turn on.
pub open spec fn entry_is(e: Entry, opts: LogOpts, label: Seq<char>, style: Style) -> bool {
    &&& e.label@ == label
    &&& e.style == style
    &&& e.stdout == opts.stdout
    &&& e.buffer == opts.buffer
    &&& e.file == opts.file
}

impl LogOpts {
    /// The settings a logger starts with: level `Info`, not silent, in color, writing to
    /// standard output only.
    pub fn new() -> (r: LogOpts)
        ensures
            r == (LogOpts {
                level: Level::Info,
                silent: false,
                color: true,
                file: false,
                stdout: true,
                buffer: false,
            }),
    {
        LogOpts { level: Level::Info, silent: false, color: true, file: false, stdout: true, buffer: false }
    }

    /// Writes to the buffer in place of standard output.
    pub fn enable_buffer(&mut self)
        ensures
            *final(self) == (LogOpts { buffer: true, stdout: false, ..*old(self) }),
    {
        self.buffer = true;
        self.stdout = false;
    }

    /// Writes to standard output in place of the buffer.
    pub fn disable_buffer(&mut self)
        ensures
            *final(self) == (LogOpts { buffer: false, stdout: true, ..*old(self) }),
    {
        self.buffer = false;
        self.stdout = true;
    }

    /// How a record of `level` is written: nothing when the logger is silent or the record is
    /// more verbose than the logger's level; otherwise the level's name, in the level's style
    /// when color is on and plain otherwise, to each output that is on.
    pub fn log(&self, level: Level) -> (r: Option<Entry>)
        ensures
            match r {
                None => self.silent || verbosity(level) > verbosity(self.level),
                Some(e) => !self.silent && verbosity(level) <= verbosity(self.level) && entry_is(
                    e,
                    *self,
                    level_name(level),
                    if self.color { style_of(level) } else { Style::Normal },
                ),
            },
    {
        let logger = Logger { level: self.level };
        if !logger.enabled(level) || self.silent {
            return None;
        }
        let style = if self.color { Logger::style(level) } else { Style::Normal };
        Some(Entry { label: level.name(), style, stdout: self.stdout, buffer: self.buffer, file: self.file })
    }

    /// How a fatal message is written before the process exits: nothing when the logger is
    /// silent; otherwise `FATAL`, red when color is on and plain otherwise, to each output
    /// that is on.
    pub fn fatal(&self) -> (r: Option<Entry>)
        ensures
            match r {
                None => self.silent,
                Some(e) => !self.silent && entry_is(
                    e,
                    *self,
                    "FATAL"@,
                    if self.color { Style::Red } else { Style::Normal },
                ),
            },
    {
        if self.silent {
            return None;
        }
        let style = if self.color { Style::Red } else { Style::Normal };
        Some(Entry { label: String::from_str("FATAL"), style, stdout: self.stdout, buffer: self.buffer, file: self.file })
    }
}

} // verus!
