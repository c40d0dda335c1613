//! What a run is configured with.

use vstd::prelude::*;
use crate::style::Style;
use crate::case::{lower_of, to_lower};
use crate::text::{chars_of, is_str};

verus! {

/// The canonical levels of a log record.
#[derive(Copy, Clone, Debug, PartialEq, Eq, Structural)]
pub enum LogLevel {
    Info,
    Debug,
    Warning,
    Error,
    Fatal,
}

/// Whether the prefix of a Kail envelope is put before the message.
#[derive(Debug, Clone, Copy, PartialEq, Eq, Structural)]
pub enum KailPrefix {
    Show,
    Hide,
}

/// How a level is drawn: as a symbol or as a padded word.
#[derive(Debug, Clone, Copy, PartialEq, Eq, Structural)]
pub enum LevelSymbols {
    Emoji,
    Text,
}

/// When escape sequences are written. Only `Never` switches them off.
#[derive(Debug, Clone, Copy, PartialEq, Eq, Structural)]
pub enum Coloring {
    Always,
    Never,
    Auto,
}

/// What a run is configured with. It is not changed while lines are read.
#[derive(Debug, Clone)]
pub struct Config {
    /// The command that is started where `action_regexp` matches a line;
    /// `{}` in it stands for what was matched.
    pub action_command: Option<String>,
    /// The regular expression that starts `action_command`.
    pub action_regexp: Option<String>,
    /// The files to read; standard input where there are none.
    pub files: Option<Vec<String>>,
    /// The levels that are shown; all of them where the list is empty.
    pub filter_levels: Vec<LogLevel>,
    /// Names of fields, each with the JSON pointer under which a line holds it.
    pub json_keys: Vec<(String, String)>,
    /// The pattern of the prefix that a Kail envelope is shown as.
    pub kail_prefix_format: String,
    /// Whether that prefix is shown.
    pub kail_prefix: KailPrefix,
    /// How a level is drawn.
    pub level_symbols: LevelSymbols,
    /// The highlighting rules, in the order in which they are applied: a
    /// regular expression and the style of what it matches.
    pub regexp_colours: Vec<(String, Style)>,
    /// Regular expressions; a record whose message one of them matches is
    /// dropped.
    pub skip_line_regexp: Vec<String>,
    /// The format in which time stamps are written.
    pub time_format: String,
    /// The time zone in which time stamps are written; UTC where none is named.
    pub timezone: Option<String>,
    /// Whether stack traces are left out.
    pub hide_stacktrace: bool,
    /// When escape sequences are written.
    pub coloring: Coloring,
}

/// No name stands twice in `entries`.
pub open spec fn distinct_names<T>(entries: Seq<(String, T)>) -> bool {
    forall|i: int, j: int|
        0 <= i < j < entries.len() ==> (#[trigger] entries[i]).0@ != (#[trigger] entries[j]).0@
}

impl Config {
    /// A configuration is a mapping twice over: no pattern stands twice among
    /// the highlighting rules, and no name twice among the JSON keys.
    /// `Config::default` and `config_from` make such configurations. Every
    /// function of the library takes any configuration; in one that is not
    /// well formed the entries under one name are taken one after the other.
    pub open spec fn well_formed(&self) -> bool {
        &&& distinct_names(self.regexp_colours@)
        &&& distinct_names(self.json_keys@)
    }

    /// Whether this configuration writes no escape sequences.
    pub open spec fn is_plain(&self) -> bool {
        self.coloring == Coloring::Never
    }

    /// Whether this configuration writes no escape sequences.
    pub fn plain(&self) -> (r: bool)
        ensures
            r == self.is_plain(),
    {
        self.coloring == Coloring::Never
    }
}

impl Default for Config {
    /// The configuration of a run without arguments.
    fn default() -> (c: Config)
        ensures
            c.files matches Some(f) && f@.len() == 0,
            c.kail_prefix_format@ == "{namespace}/{pod}[{container}]"@,
            c.kail_prefix == KailPrefix::Show,
            c.time_format@ == "%H:%M:%S"@,
            c.timezone is None,
            c.filter_levels@.len() == 0,
            c.regexp_colours@.len() == 0,
            c.json_keys@.len() == 0,
            c.level_symbols == LevelSymbols::Text,
            c.action_regexp matches Some(r) && r@.len() == 0,
            c.action_command matches Some(a) && a@.len() == 0,
            c.skip_line_regexp@.len() == 0,
            !c.hide_stacktrace,
            c.coloring == Coloring::Auto,
            c.well_formed(),
    {
        Config {
            files: Some(Vec::new()),
            kail_prefix_format: "{namespace}/{pod}[{container}]".to_owned(),
            kail_prefix: KailPrefix::Show,
            time_format: "%H:%M:%S".to_owned(),
            timezone: None,
            filter_levels: Vec::new(),
            regexp_colours: Vec::new(),
            json_keys: Vec::new(),
            level_symbols: LevelSymbols::Text,
            action_regexp: Some(String::new()),
            action_command: Some(String::new()),
            skip_line_regexp: Vec::new(),
            hide_stacktrace: false,
            coloring: Coloring::Auto,
        }
    }
}

/// The level that a lower-case name stands for. `warn` and `warning`, `err`
/// and `error` are synonyms; a name that is none of the known ones is `Info`.
pub open spec fn level_of(name: Seq<char>) -> LogLevel {
    if name == "debug"@ {
        LogLevel::Debug
    } else if name == "warn"@ || name == "warning"@ {
        LogLevel::Warning
    } else if name == "err"@ || name == "error"@ {
        LogLevel::Error
    } else if name == "fatal"@ {
        LogLevel::Fatal
    } else {
        LogLevel::Info
    }
}

/// The level that the name `level` stands for, whatever the case of its
/// letters.
pub fn level_from_str(level: &str) -> (r: &'static LogLevel)
    ensures
        *r == level_of(lower_of(level@)),
{
    let lowered = to_lower(level);
    let name = chars_of(lowered.as_str());
    let name = name.as_slice();
    if is_str(name, "debug") {
        &LogLevel::Debug
    } else if is_str(name, "warn") || is_str(name, "warning") {
        &LogLevel::Warning
    } else if is_str(name, "err") || is_str(name, "error") {
        &LogLevel::Error
    } else if is_str(name, "fatal") {
        &LogLevel::Fatal
    } else {
        &LogLevel::Info
    }
}

/// The canonical level of a raw level: `level_from_str`, by value.
pub fn normalize_level(raw: &str) -> (level: LogLevel)
    ensures
        level == level_of(lower_of(raw@)),
{
    *level_from_str(raw)
}

/// Whether `level` is one of `levels`.
pub fn has_level(levels: &Vec<LogLevel>, level: LogLevel) -> (r: bool)
    ensures
        r == levels@.contains(level),
{
    let mut i: usize = 0;
    while i < levels.len()
        invariant
            i <= levels.len(),
            forall|k: int| 0 <= k < i ==> levels@[k] != level,
        decreases levels.len() - i,
    {
        if levels[i] == level {
            return true;
        }
        i += 1;
    }
    false
}

} // verus!
