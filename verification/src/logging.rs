//! The rules of the diagnostic log: levels, lines, file names and rotation.

use vstd::prelude::*;

use crate::calendar::civil_from_days;
#[allow(unused_imports)]
use crate::calendar::{day_number, valid_date};
#[allow(unused_imports)]
use crate::digits::{decimal, padded};
use crate::digits::{push_number, push_padded, push_text};
use crate::order::{sorted_positions, Ranked};
#[allow(unused_imports)]
use crate::order::{before, in_order};
use crate::paths::{extension_of_name, parent_path};
#[allow(unused_imports)]
use crate::paths::{lies_in, name_extension, text_of};
#[allow(unused_imports)]
use crate::text::{ascii_folded, begins, ends, trimmed, whitespace};
use crate::text::{ends_with, same_text, starts_with, string_of, to_ascii_lower, trim};

verus! {

/// How much is logged: each level includes the ones before it.
#[derive(Debug, Clone, Copy, PartialEq, Eq, PartialOrd, Ord, Structural)]
pub enum Level {
    Off,
    Error,
    Warn,
    Info,
    Debug,
    Trace,
}

impl Level {
    /// The place of the level in the order of detail.
    pub open spec fn detail(self) -> int {
        match self {
            Level::Off => 0,
            Level::Error => 1,
            Level::Warn => 2,
            Level::Info => 3,
            Level::Debug => 4,
            Level::Trace => 5,
        }
    }

    pub open spec fn spec_name(self) -> Seq<char> {
        match self {
            Level::Off => "off"@,
            Level::Error => "error"@,
            Level::Warn => "warn"@,
            Level::Info => "info"@,
            Level::Debug => "debug"@,
            Level::Trace => "trace"@,
        }
    }

    /// The level that a text names, whatever its case and the white space around it.
    pub open spec fn named(text: Seq<char>) -> Option<Level> {
        let name = ascii_folded(trimmed(text));
        if name == "off"@ {
            Some(Level::Off)
        } else if name == "error"@ {
            Some(Level::Error)
        } else if name == "warn"@ {
            Some(Level::Warn)
        } else if name == "info"@ {
            Some(Level::Info)
        } else if name == "debug"@ {
            Some(Level::Debug)
        } else if name == "trace"@ {
            Some(Level::Trace)
        } else {
            None
        }
    }

    fn detail_of(self) -> (r: u8)
        ensures
            r == self.detail(),
    {
        match self {
            Level::Off => 0,
            Level::Error => 1,
            Level::Warn => 2,
            Level::Info => 3,
            Level::Debug => 4,
            Level::Trace => 5,
        }
    }

    /// Reads the name of a level.
    pub fn parse(s: &str) -> (r: Option<Level>)
        ensures
            r == Level::named(s@),
            r == Some(Level::Off) <==> ascii_folded(trimmed(s@)) == "off"@,
            r == Some(Level::Error) <==> ascii_folded(trimmed(s@)) == "error"@,
            r == Some(Level::Warn) <==> ascii_folded(trimmed(s@)) == "warn"@,
            r == Some(Level::Info) <==> ascii_folded(trimmed(s@)) == "info"@,
            r == Some(Level::Debug) <==> ascii_folded(trimmed(s@)) == "debug"@,
            r == Some(Level::Trace) <==> ascii_folded(trimmed(s@)) == "trace"@,
    {
        proof {
            level_words_differ();
        }
        let name = to_ascii_lower(trim(s));
        let name = name.as_str();
        if same_text(name, "off") {
            Some(Level::Off)
        } else if same_text(name, "error") {
            Some(Level::Error)
        } else if same_text(name, "warn") {
            Some(Level::Warn)
        } else if same_text(name, "info") {
            Some(Level::Info)
        } else if same_text(name, "debug") {
            Some(Level::Debug)
        } else if same_text(name, "trace") {
            Some(Level::Trace)
        } else {
            None
        }
    }

    /// The name of the level.
    pub fn as_str(self) -> (r: &'static str)
        ensures
            r@ == self.spec_name(),
            r@ == match self {
                Level::Off => "off"@,
                Level::Error => "error"@,
                Level::Warn => "warn"@,
                Level::Info => "info"@,
                Level::Debug => "debug"@,
                Level::Trace => "trace"@,
            },
    {
        match self {
            Level::Off => "off",
            Level::Error => "error",
            Level::Warn => "warn",
            Level::Info => "info",
            Level::Debug => "debug",
            Level::Trace => "trace",
        }
    }

    /// The name of the level as it stands in a log line.
    pub open spec fn spec_label(self) -> Seq<char> {
        match self {
            Level::Off => "OFF"@,
            Level::Error => "ERROR"@,
            Level::Warn => "WARN"@,
            Level::Info => "INFO"@,
            Level::Debug => "DEBUG"@,
            Level::Trace => "TRACE"@,
        }
    }

    fn label(self) -> (r: &'static str)
        ensures
            r@ == self.spec_label(),
    {
        match self {
            Level::Off => "OFF",
            Level::Error => "ERROR",
            Level::Warn => "WARN",
            Level::Info => "INFO",
            Level::Debug => "DEBUG",
            Level::Trace => "TRACE",
        }
    }
}

proof fn level_words_differ()
    ensures
        "off"@ != "error"@ && "off"@ != "warn"@ && "off"@ != "info"@ && "off"@ != "debug"@ && "off"@
            != "trace"@,
        "error"@ != "warn"@ && "error"@ != "info"@ && "error"@ != "debug"@ && "error"@ != "trace"@,
        "warn"@ != "info"@ && "warn"@ != "debug"@ && "warn"@ != "trace"@,
        "info"@ != "debug"@ && "info"@ != "trace"@,
        "debug"@ != "trace"@,
{
    reveal_strlit("off");
    reveal_strlit("error");
    reveal_strlit("warn");
    reveal_strlit("info");
    reveal_strlit("debug");
    reveal_strlit("trace");
    assert("off"@[0] == 'o' && "error"@[0] == 'e' && "warn"@[0] == 'w' && "info"@[0] == 'i'
        && "debug"@[0] == 'd' && "trace"@[0] == 't');
}

proof fn level_names()
    ensures
        forall|level: Level| #[trigger]
            trimmed(level.spec_name()) == level.spec_name(),
        forall|level: Level| #[trigger]
            ascii_folded(level.spec_name()) == level.spec_name(),
        forall|a: Level, b: Level| #[trigger] a.spec_name() == #[trigger] b.spec_name() ==> a == b,
{
    reveal_strlit("off");
    reveal_strlit("error");
    reveal_strlit("warn");
    reveal_strlit("info");
    reveal_strlit("debug");
    reveal_strlit("trace");
    assert forall|level: Level| #[trigger] trimmed(level.spec_name()) == level.spec_name() by {
        let name = level.spec_name();
        assert(!whitespace(name[0]) && !whitespace(name.last()));
    }
    assert forall|level: Level| #[trigger]
        ascii_folded(level.spec_name()) == level.spec_name() by {
        assert(ascii_folded(level.spec_name()) =~= level.spec_name());
    }
    assert forall|a: Level, b: Level| #[trigger] a.spec_name() == #[trigger] b.spec_name() implies a
        == b by {
        assert(a.spec_name().len() == b.spec_name().len());
        assert(a.spec_name()[0] == b.spec_name()[0]);
    }
}

/// The name of a level reads back as that level.
pub proof fn level_name_reads_back(level: Level)
    ensures
        Level::named(level.spec_name()) == Some(level),
{
    level_names();
    let name = ascii_folded(trimmed(level.spec_name()));
    assert(name == level.spec_name());
    assert(Level::Off.spec_name() == "off"@);
    assert(Level::Error.spec_name() == "error"@);
    assert(Level::Warn.spec_name() == "warn"@);
    assert(Level::Info.spec_name() == "info"@);
    assert(Level::Debug.spec_name() == "debug"@);
    assert(Level::Trace.spec_name() == "trace"@);
}

/// The case of a level's name does not matter.
pub proof fn level_name_in_any_case(text: Seq<char>, level: Level)
    requires
        ascii_folded(trimmed(text)) == level.spec_name(),
    ensures
        Level::named(text) == Some(level),
{
    level_names();
    assert(Level::Off.spec_name() == "off"@);
    assert(Level::Error.spec_name() == "error"@);
    assert(Level::Warn.spec_name() == "warn"@);
    assert(Level::Info.spec_name() == "info"@);
    assert(Level::Debug.spec_name() == "debug"@);
    assert(Level::Trace.spec_name() == "trace"@);
}

/// What a log is opened with.
#[derive(Debug, Clone, PartialEq, Eq)]
pub struct InitOptions {
    /// The directory of the log files.
    pub dir: String,
    /// The process: its log files begin with this name.
    pub name: String,
    pub level: Level,
    /// Whether warnings and errors go to the standard error stream as well.
    pub mirror_stderr: bool,
}

/// The log of this process, once it is open.
#[derive(Debug, Clone, PartialEq, Eq)]
pub struct ActiveLog {
    pub level: Level,
    pub mirror_stderr: bool,
    pub path: String,
}

/// How many log files of one process name are kept.
pub const KEEP_FILES_PER_NAME: usize = 8;

/// The level that a setting stands for: everything, or what is usual.
pub fn diagnostic_level(verbose: bool) -> (r: Level)
    ensures
        r == if verbose {
            Level::Trace
        } else {
            Level::Info
        },
{
    if verbose {
        Level::Trace
    } else {
        Level::Info
    }
}

/// The log once it was opened with `options`; `path` is its file, where that could be opened.
/// A log that is open stays as it is.
pub open spec fn opened(
    log: Option<ActiveLog>,
    options: InitOptions,
    path: Option<String>,
) -> Option<ActiveLog> {
    match (log, path) {
        (Some(_), _) => log,
        (None, Some(path)) => Some(
            ActiveLog {
                level: options.level,
                mirror_stderr: options.mirror_stderr,
                path,
            },
        ),
        (None, None) => None,
    }
}

/// The log once its level was set.
pub open spec fn at_level(log: Option<ActiveLog>, level: Level) -> Option<ActiveLog> {
    match log {
        Some(active) => Some(ActiveLog { level, ..active }),
        None => None,
    }
}

/// The level of a log; `Off` where none is open.
pub open spec fn level_in(log: Option<ActiveLog>) -> Level {
    match log {
        Some(active) => active.level,
        None => Level::Off,
    }
}

/// Opens the log of the process, unless it is open. `path` is its file, where that could be
/// opened. Returns the file of the log that is open now.
pub fn open_log(
    log: &mut Option<ActiveLog>,
    options: InitOptions,
    path: Option<String>,
) -> (r: Option<String>)
    ensures
        *final(log) == opened(*old(log), options, path),
        *old(log) is Some ==> *final(log) == *old(log),
        *old(log) is None && path is None ==> *final(log) is None,
        *old(log) is None && path is Some ==> *final(log) == Some(
            ActiveLog {
                level: options.level,
                mirror_stderr: options.mirror_stderr,
                path: path->0,
            },
        ),
        match *final(log) {
            Some(active) => r == Some(active.path),
            None => r is None,
        },
{
    if log.is_none() {
        if let Some(path) = path {
            *log = Some(
                ActiveLog {
                    level: options.level,
                    mirror_stderr: options.mirror_stderr,
                    path,
                },
            );
        }
    }
    active_log_path(log)
}

/// Sets the level of the log, where one is open.
pub fn set_level(log: &mut Option<ActiveLog>, level: Level)
    ensures
        *final(log) == at_level(*old(log), level),
        *old(log) is None ==> *final(log) is None,
        *old(log) matches Some(active) ==> *final(log) == Some(ActiveLog { level, ..active }),
{
    if let Some(active) = log {
        active.level = level;
    }
}

/// The level of the log; `Off` where none is open.
pub fn current_level(log: &Option<ActiveLog>) -> (r: Level)
    ensures
        r == level_in(*log),
        *log is None ==> r == Level::Off,
        *log matches Some(active) ==> r == active.level,
{
    match log {
        Some(active) => active.level,
        None => Level::Off,
    }
}

/// The file of the log, where one is open.
pub fn active_log_path(log: &Option<ActiveLog>) -> (r: Option<String>)
    ensures
        match *log {
            Some(active) => r == Some(active.path),
            None => r is None,
        },
{
    match log {
        Some(active) => Some(active.path.clone()),
        None => None,
    }
}

/// The directory that the file of the log lies in, where one is open.
pub fn logs_dir(log: &Option<ActiveLog>) -> (r: Option<String>)
    ensures
        match *log {
            Some(active) => lies_in(active.path@, text_of(r)),
            None => r is None,
        },
{
    match log {
        Some(active) => parent_path(active.path.as_str()),
        None => None,
    }
}

/// The options of a process that takes its log settings from its environment: a setting
/// that is given and understood wins over the fallback.
pub fn options_from_env(
    name: &str,
    env_dir: Option<String>,
    env_level: Option<&str>,
    fallback_dir: Option<String>,
    default_dir: String,
    fallback_level: Level,
) -> (r: InitOptions)
    ensures
        r.name@ == name@,
        r.mirror_stderr,
        r.level == match env_level {
            Some(text) => match Level::named(text@) {
                Some(level) => level,
                None => fallback_level,
            },
            None => fallback_level,
        },
        r.dir == match env_dir {
            Some(dir) => dir,
            None => match fallback_dir {
                Some(dir) => dir,
                None => default_dir,
            },
        },
{
    let level = match env_level {
        Some(text) => match Level::parse(text) {
            Some(level) => level,
            None => fallback_level,
        },
        None => fallback_level,
    };
    let dir = match env_dir {
        Some(dir) => dir,
        None => match fallback_dir {
            Some(dir) => dir,
            None => default_dir,
        },
    };
    InitOptions { dir, name: name.to_owned(), level, mirror_stderr: true }
}

/// Whether a record of a level is logged.
pub fn enabled(record: Level, limit: Level) -> (r: bool)
    ensures
        r == (record.detail() <= limit.detail()),
        match limit {
            Level::Off => r == (record == Level::Off),
            Level::Error => r == (record == Level::Off || record == Level::Error),
            Level::Warn => r == (record == Level::Off || record == Level::Error || record
                == Level::Warn),
            Level::Info => r == !(record == Level::Debug || record == Level::Trace),
            Level::Debug => r == !(record == Level::Trace),
            Level::Trace => r,
        },
{
    record.detail_of() <= limit.detail_of()
}

/// Whether a record goes to the standard error stream too.
pub fn mirrored(log: &ActiveLog, record: Level) -> (r: bool)
    ensures
        r == (log.mirror_stderr && record.detail() <= Level::Warn.detail()),
        r == (log.mirror_stderr && (record == Level::Off || record == Level::Error || record
            == Level::Warn)),
{
    log.mirror_stderr && record.detail_of() <= Level::Warn.detail_of()
}

/// A moment as it stands in the log.
pub open spec fn moment_text(
    year: int,
    month: int,
    day: int,
    second_of_day: int,
    millis: int,
) -> Seq<char> {
    padded(year as nat, 4) + "-"@ + padded(month as nat, 2) + "-"@ + padded(day as nat, 2) + " "@
        + padded((second_of_day / 3600) as nat, 2) + ":"@ + padded(
        ((second_of_day % 3600) / 60) as nat,
        2,
    ) + ":"@ + padded((second_of_day % 60) as nat, 2) + "."@ + padded(millis as nat, 3) + " UTC"@
}

/// The moment `millis` milliseconds after the start of 1970, in UTC.
pub fn timestamp_str(millis: u64) -> (r: String)
    ensures
        exists|year: int, month: int, day: int| #[trigger]
            valid_date(year, month, day) && day_number(year, month, day) == millis as int
                / 86_400_000 && r@ == moment_text(
                year,
                month,
                day,
                (millis as int / 1000) % 86_400,
                millis as int % 1000,
            ),
{
    let secs: u64 = millis / 1000;
    let days: u64 = secs / 86_400;
    let second_of_day: u64 = secs % 86_400;
    let (y, m, d) = civil_from_days(days as i64);
    proof {
        crate::calendar::days_count_from_1970(y as int, m as int, d as int);
    }
    let mut out: Vec<char> = Vec::new();
    push_padded(&mut out, y as u64, 4);
    push_text(&mut out, "-");
    push_padded(&mut out, m as u64, 2);
    push_text(&mut out, "-");
    push_padded(&mut out, d as u64, 2);
    push_text(&mut out, " ");
    push_padded(&mut out, second_of_day / 3600, 2);
    push_text(&mut out, ":");
    push_padded(&mut out, (second_of_day % 3600) / 60, 2);
    push_text(&mut out, ":");
    push_padded(&mut out, second_of_day % 60, 2);
    push_text(&mut out, ".");
    push_padded(&mut out, millis % 1000, 3);
    push_text(&mut out, " UTC");
    proof {
        assert(days == millis as int / 86_400_000);
        assert(out@ =~= moment_text(
            y as int,
            m as int,
            d as int,
            (millis as int / 1000) % 86_400,
            millis as int % 1000,
        ));
        assert(valid_date(y as int, m as int, d as int));
    }
    string_of(out)
}

/// A line of the log.
pub fn log_line(timestamp: &str, level: Level, target: &str, message: &str) -> (r: String)
    ensures
        r@ == timestamp@ + " ["@ + level.spec_label() + "] "@ + target@ + ": "@ + message@ + "\n"@,
{
    let mut out: Vec<char> = Vec::new();
    push_text(&mut out, timestamp);
    push_text(&mut out, " [");
    push_text(&mut out, level.label());
    push_text(&mut out, "] ");
    push_text(&mut out, target);
    push_text(&mut out, ": ");
    push_text(&mut out, message);
    push_text(&mut out, "\n");
    string_of(out)
}

/// The name of a new log file.
pub fn log_file_name(name: &str, pid: u32, millis: u64) -> (r: String)
    ensures
        r@ == name@ + "-"@ + decimal(pid as nat) + "-"@ + decimal(millis as nat) + ".log"@,
{
    let mut out: Vec<char> = Vec::new();
    push_text(&mut out, name);
    push_text(&mut out, "-");
    push_number(&mut out, pid as u64);
    push_text(&mut out, "-");
    push_number(&mut out, millis);
    push_text(&mut out, ".log");
    string_of(out)
}

/// A file in the directory of the logs.
#[derive(Debug, Clone, PartialEq, Eq)]
pub struct LogFile {
    pub name: String,
    /// When the file was last written, where that is known.
    pub modified: Option<u64>,
}

/// A log file of the process `name` whose age is known.
pub open spec fn rotates(file: LogFile, name: Seq<char>) -> bool {
    begins(file.name@, name + "-"@) && ends(file.name@, ".log"@) && file.modified is Some
}

/// The positions of the log files of a process.
pub open spec fn rotating(files: Seq<LogFile>, name: Seq<char>) -> Seq<usize>
    decreases files.len(),
{
    if files.len() == 0 {
        Seq::empty()
    } else {
        let earlier = rotating(files.drop_last(), name);
        if rotates(files.last(), name) {
            earlier.push((files.len() - 1) as usize)
        } else {
            earlier
        }
    }
}

/// The file at `i` is older than the one at `j`, or as old and listed first.
pub open spec fn older(files: Seq<LogFile>, i: int, j: int) -> bool {
    let a = files[i].modified->0;
    let b = files[j].modified->0;
    a < b || (a == b && i < j)
}

struct Ages<'a> {
    files: &'a Vec<LogFile>,
    candidates: &'a Vec<usize>,
}

impl<'a> Ages<'a> {
    #[verifier::type_invariant]
    closed spec fn valid(&self) -> bool {
        forall|k: int|
            0 <= k < self.candidates@.len() ==> {
                &&& #[trigger] self.candidates@[k] < self.files@.len()
                &&& self.files@[self.candidates@[k] as int].modified is Some
            }
    }

    spec fn age(&self, k: int) -> u64 {
        self.files@[self.candidates@[k] as int].modified->0
    }
}

impl<'a> Ranked for Ages<'a> {
    closed spec fn count(&self) -> nat {
        self.candidates@.len()
    }

    closed spec fn le(&self, i: int, j: int) -> bool {
        self.age(i) <= self.age(j)
    }

    proof fn total(&self, i: int, j: int) {
    }

    proof fn transitive(&self, i: int, j: int, k: int) {
    }

    fn leq(&self, i: usize, j: usize) -> (r: bool) {
        proof {
            use_type_invariant(self);
        }
        let a = &self.files[self.candidates[i]];
        let b = &self.files[self.candidates[j]];
        match (a.modified, b.modified) {
            (Some(x), Some(y)) => x <= y,
            _ => true,
        }
    }
}

proof fn rotating_ascends(files: Seq<LogFile>, name: Seq<char>)
    requires
        files.len() <= usize::MAX,
    ensures
        rotating(files, name).len() <= files.len(),
        forall|k: int|
            0 <= k < rotating(files, name).len() ==> {
                &&& #[trigger] rotating(files, name)[k] < files.len()
                &&& rotates(files[rotating(files, name)[k] as int], name)
            },
        forall|k: int, l: int|
            0 <= k < l < rotating(files, name).len() ==> #[trigger] rotating(files, name)[k]
                < #[trigger] rotating(files, name)[l],
        forall|i: usize|
            i < files.len() && rotates(files[i as int], name) ==> #[trigger] rotating(
                files,
                name,
            ).contains(i),
    decreases files.len(),
{
    if files.len() > 0 {
        let earlier = rotating(files.drop_last(), name);
        rotating_ascends(files.drop_last(), name);
        let all = rotating(files, name);
        assert forall|k: int| 0 <= k < all.len() implies {
            &&& #[trigger] all[k] < files.len()
            &&& rotates(files[all[k] as int], name)
        } by {
            if k < earlier.len() {
                assert(earlier[k] == all[k]);
            }
        }
        assert forall|i: usize| i < files.len() && rotates(files[i as int], name) implies #[trigger]
            all.contains(i) by {
            if i < files.len() - 1 {
                assert(files.drop_last()[i as int] == files[i as int]);
                assert(earlier.contains(i));
                let k = choose|k: int| 0 <= k < earlier.len() && earlier[k] == i;
                assert(all[k] == i);
            } else {
                assert(all.last() == i);
            }
        }
    }
}

/// The files of a process that rotation deletes, oldest first: all but the `keep` newest.
pub fn logs_to_remove(files: &Vec<LogFile>, name: &str, keep: usize) -> (r: Vec<usize>)
    ensures
        r@.len() == if rotating(files@, name@).len() > keep {
            rotating(files@, name@).len() - keep
        } else {
            0
        },
        forall|k: int| 0 <= k < r@.len() ==> rotating(files@, name@).contains(#[trigger] r@[k]),
        forall|k: int, l: int|
            0 <= k < l < r@.len() ==> older(
                files@,
                #[trigger] r@[k] as int,
                #[trigger] r@[l] as int,
            ),
        forall|k: int, i: usize|
            0 <= k < r@.len() && #[trigger] rotating(files@, name@).contains(i) && !r@.contains(i)
                ==> older(files@, #[trigger] r@[k] as int, i as int),
        forall|k: int|
            0 <= k < r@.len() ==> {
                &&& #[trigger] r@[k] < files@.len()
                &&& files@[r@[k] as int].modified is Some
                &&& begins(files@[r@[k] as int].name@, name@ + "-"@)
                &&& ends(files@[r@[k] as int].name@, ".log"@)
            },
{
    let mut prefix: Vec<char> = Vec::new();
    push_text(&mut prefix, name);
    push_text(&mut prefix, "-");
    let prefix = string_of(prefix);
    let mut candidates: Vec<usize> = Vec::new();
    let mut i: usize = 0;
    assert(files@.take(0) =~= Seq::<LogFile>::empty());
    while i < files.len()
        invariant
            i <= files@.len(),
            prefix@ == name@ + "-"@,
            candidates@ == rotating(files@.take(i as int), name@),
        decreases files@.len() - i,
    {
        let file = &files[i];
        proof {
            assert(files@.take(i + 1).drop_last() =~= files@.take(i as int));
            assert(files@.take(i + 1).last() == *file);
        }
        if starts_with(file.name.as_str(), prefix.as_str()) && ends_with(
            file.name.as_str(),
            ".log",
        ) && file.modified.is_some() {
            candidates.push(i);
        }
        i = i + 1;
    }
    proof {
        assert(files@.take(files@.len() as int) =~= files@);
        rotating_ascends(files@, name@);
    }
    let n: usize = candidates.len();
    let ages = Ages { files, candidates: &candidates };
    let positions = sorted_positions(&ages, n);
    let count: usize = if n > keep {
        n - keep
    } else {
        0
    };
    let mut out: Vec<usize> = Vec::new();
    let mut k: usize = 0;
    while k < count
        invariant
            k <= count <= n,
            n == candidates@.len(),
            in_order(&ages, positions@, 0, n as int),
            out@.len() == k,
            forall|a: int|
                0 <= a < k ==> #[trigger] out@[a] == candidates@[positions@[a] as int],
        decreases count - k,
    {
        out.push(candidates[positions[k]]);
        k = k + 1;
    }
    proof {
        let ours = rotating(files@, name@);
        assert forall|a: int, b: int| 0 <= a < b < n implies older(
            files@,
            candidates@[#[trigger] positions@[a] as int] as int,
            candidates@[#[trigger] positions@[b] as int] as int,
        ) by {
            assert(before(&ages, positions@[a] as int, positions@[b] as int));
            let x = positions@[a] as int;
            let y = positions@[b] as int;
            assert(ages.le(x, y));
            if ages.age(x) == ages.age(y) {
                assert(ages.le(y, x));
                assert(ours[x] < ours[y]);
            }
        }
        assert forall|a: int, i: usize|
            0 <= a < out@.len() && #[trigger] ours.contains(i) && !out@.contains(i) implies older(
            files@,
            #[trigger] out@[a] as int,
            i as int,
        ) by {
            let c = choose|c: int| 0 <= c < ours.len() && ours[c] == i;
            assert(positions@.contains(c as usize));
            let b = choose|b: int| 0 <= b < positions@.len() && positions@[b] == c as usize;
            if b < count {
                assert(out@[b] == i);
                assert(out@.contains(i));
            }
            assert(older(
                files@,
                candidates@[positions@[a] as int] as int,
                candidates@[positions@[b] as int] as int,
            ));
        }
    }
    out
}

/// Order of times of which some are not known: those come first.
pub open spec fn not_later(a: Option<u64>, b: Option<u64>) -> bool {
    match (a, b) {
        (None, _) => true,
        (Some(_), None) => false,
        (Some(x), Some(y)) => x <= y,
    }
}

pub open spec fn is_log(file: LogFile) -> bool {
    name_extension(file.name@) == Some("log"@)
}

/// The log file that was written last; of several such, the one listed last.
pub fn newest_log(files: &Vec<LogFile>) -> (r: Option<usize>)
    ensures
        match r {
            Some(i) => {
                &&& i < files@.len()
                &&& is_log(files@[i as int])
                &&& forall|k: int|
                    0 <= k < files@.len() && is_log(#[trigger] files@[k]) ==> not_later(
                        files@[k].modified,
                        files@[i as int].modified,
                    ) && (k > i ==> !not_later(files@[i as int].modified, files@[k].modified))
            },
            None => forall|k: int| 0 <= k < files@.len() ==> !is_log(#[trigger] files@[k]),
        },
        r matches Some(i) ==> {
            &&& name_extension(files@[i as int].name@) == Some("log"@)
            &&& forall|k: int|
                0 <= k < files@.len() && name_extension((#[trigger] files@[k]).name@) == Some("log"@)
                    && files@[k].modified is Some ==> files@[i as int].modified is Some
                    && files@[k].modified->0 <= files@[i as int].modified->0 && (k > i
                    ==> files@[k].modified->0 < files@[i as int].modified->0)
        },
        r is None ==> forall|k: int|
            0 <= k < files@.len() ==> name_extension((#[trigger] files@[k]).name@) != Some("log"@),
{
    let mut best: Option<usize> = None;
    let mut i: usize = 0;
    while i < files.len()
        invariant
            i <= files@.len(),
            match best {
                Some(b) => {
                    &&& b < i
                    &&& is_log(files@[b as int])
                    &&& forall|k: int|
                        0 <= k < i && is_log(#[trigger] files@[k]) ==> not_later(
                            files@[k].modified,
                            files@[b as int].modified,
                        ) && (k > b ==> !not_later(files@[b as int].modified, files@[k].modified))
                },
                None => forall|k: int| 0 <= k < i ==> !is_log(#[trigger] files@[k]),
            },
        decreases files@.len() - i,
    {
        let file = &files[i];
        let log = match extension_of_name(file.name.as_str()) {
            Some(ext) => same_text(ext.as_str(), "log"),
            None => false,
        };
        if log {
            let newer = match best {
                Some(b) => match (files[b].modified, file.modified) {
                    (None, _) => true,
                    (Some(_), None) => false,
                    (Some(x), Some(y)) => x <= y,
                },
                None => true,
            };
            if newer {
                best = Some(i);
            }
        }
        i = i + 1;
    }
    best
}

/// The log once its level was set to each of `levels` in turn.
pub open spec fn at_levels(log: Option<ActiveLog>, levels: Seq<Level>) -> Option<ActiveLog>
    decreases levels.len(),
{
    if levels.len() == 0 {
        log
    } else {
        at_level(at_levels(log, levels.drop_last()), levels.last())
    }
}

/// An open log has the level that was set last, or that of its options where none was set.
/// Where no log is open the level is `Off`, however often one is set.
pub proof fn the_last_level_holds(log: Option<ActiveLog>, levels: Seq<Level>)
    ensures
        at_levels(log, levels) is Some <==> log is Some,
        level_in(at_levels(log, levels)) == if log is None {
            Level::Off
        } else if levels.len() == 0 {
            level_in(log)
        } else {
            levels.last()
        },
    decreases levels.len(),
{
    if levels.len() > 0 {
        the_last_level_holds(log, levels.drop_last());
    }
}

/// The first opening that succeeds gives the log the level of its options, and no later one
/// changes the log.
pub proof fn logs_are_opened_once(
    first: InitOptions,
    path: String,
    levels: Seq<Level>,
    second: InitOptions,
    other: Option<String>,
)
    ensures
        level_in(opened(None, first, Some(path))) == first.level,
        opened(at_levels(opened(None, first, Some(path)), levels), second, other) == at_levels(
            opened(None, first, Some(path)),
            levels,
        ),
        opened(None, first, None) is None,
{
    the_last_level_holds(opened(None, first, Some(path)), levels);
}

/// Rotation is about the log files of one process whose age is known: their names begin with
/// its name and a hyphen and end in `.log`. Eight of them are kept.
pub proof fn rotation_is_about_the_logs_of_one_process(
    files: Seq<LogFile>,
    name: Seq<char>,
    i: usize,
)
    requires
        files.len() <= usize::MAX,
        i < files.len(),
    ensures
        rotating(files, name).contains(i) <==> begins(files[i as int].name@, name + "-"@) && ends(
            files[i as int].name@,
            ".log"@,
        ) && files[i as int].modified is Some,
        rotating(files, name).no_duplicates(),
        KEEP_FILES_PER_NAME == 8,
{
    rotating_ascends(files, name);
    if rotating(files, name).contains(i) {
        let k = choose|k: int| 0 <= k < rotating(files, name).len()
            && rotating(files, name)[k] == i;
        assert(rotates(files[rotating(files, name)[k] as int], name));
    }
}

/// Of two files that rotation is about, the one written earlier is the older, and of two written
/// at once the one listed first.
pub proof fn files_written_earlier_are_older(files: Seq<LogFile>, i: int, j: int, a: u64, b: u64)
    requires
        files[i].modified == Some(a),
        files[j].modified == Some(b),
    ensures
        a < b ==> older(files, i, j) && !older(files, j, i),
        a == b && i < j ==> older(files, i, j) && !older(files, j, i),
{
}

/// A file is a log by its extension; the later of two times is the larger, and one that is not
/// known is earlier than any that is.
pub proof fn logs_are_told_by_their_extension(stem: Seq<char>, file: LogFile, a: u64, b: u64)
    ensures
        stem.len() > 0 && file.name@ == stem + seq!['.'] + "log"@ ==> is_log(file),
        is_log(file) <==> name_extension(file.name@) == Some("log"@),
        not_later(None, Some(a)) && !not_later(Some(a), None) && not_later(None, None),
        not_later(Some(a), Some(b)) <==> a <= b,
{
    reveal_strlit("log");
    crate::paths::last_dot_is_before_the_extension(stem, "log"@);
}

/// A moment stands in the log to the millisecond, each part with the digits it needs.
pub proof fn moments_are_logged_to_the_millisecond(
    year: int,
    month: int,
    day: int,
    hour: int,
    minute: int,
    second: int,
    millis: int,
)
    requires
        0 <= hour < 24,
        0 <= minute < 60,
        0 <= second < 60,
    ensures
        moment_text(year, month, day, hour * 3600 + minute * 60 + second, millis) == padded(
            year as nat,
            4,
        ) + "-"@ + padded(month as nat, 2) + "-"@ + padded(day as nat, 2) + " "@ + padded(
            hour as nat,
            2,
        ) + ":"@ + padded(minute as nat, 2) + ":"@ + padded(second as nat, 2) + "."@ + padded(
            millis as nat,
            3,
        ) + " UTC"@,
{
    let at = hour * 3600 + minute * 60 + second;
    assert(at / 3600 == hour);
    assert(at % 3600 == minute * 60 + second);
    assert((at % 3600) / 60 == minute);
    assert(at % 60 == second);
}

/// The levels go from none to all in this order, and a line names its level in capitals.
pub proof fn levels_are_ordered_by_detail()
    ensures
        Level::Off.detail() < Level::Error.detail() < Level::Warn.detail() < Level::Info.detail()
            < Level::Debug.detail() < Level::Trace.detail(),
        Level::Off.spec_label() == "OFF"@,
        Level::Error.spec_label() == "ERROR"@,
        Level::Warn.spec_label() == "WARN"@,
        Level::Info.spec_label() == "INFO"@,
        Level::Debug.spec_label() == "DEBUG"@,
        Level::Trace.spec_label() == "TRACE"@,
        Level::Off.spec_name() == "off"@,
        Level::Error.spec_name() == "error"@,
        Level::Warn.spec_name() == "warn"@,
        Level::Info.spec_name() == "info"@,
        Level::Debug.spec_name() == "debug"@,
        Level::Trace.spec_name() == "trace"@,
{
}

} // verus!
