//! Tools that run in the background: how they are started, what they say line by line, and
//! what is told of their end.
//!
//! A tool writes `PROGRESS<TAB>done<TAB>total` to report its progress and
//! `NOTICE<TAB>text` to report that part of its work failed. Every other line is for the
//! log, or for whoever started it.

use vstd::prelude::*;

use crate::digits::{decimal, decimal_reads_back, parse_u32, parsed, push_signed, push_text, signed_decimal};
use crate::fields::{field, no_separator, separator_is_found, split, split_on, texts};
use crate::logging::Level;
use crate::text::{begins, string_of, strip_prefix, trim, trimmed};

verus! {

/// A tool to run, and who is told of what.
pub struct ChildTask<P, N, L, F> {
    pub exe: String,
    pub args: Vec<String>,
    /// What is added to the environment of the tool.
    pub envs: Vec<(String, String)>,
    /// Whether the tool gets no window.
    pub hide_window: bool,
    pub on_progress: Option<P>,
    pub on_notice: Option<N>,
    pub on_line: Option<L>,
    pub on_finished: Option<F>,
}

impl<P, N, L, F> ChildTask<P, N, L, F> {
    /// A tool without a window, of which no one is told anything.
    pub fn new(exe: String, args: Vec<String>) -> (r: Self)
        ensures
            r.exe == exe,
            r.args == args,
            r.envs@ == Seq::<(String, String)>::empty(),
            r.hide_window,
            r.on_progress is None,
            r.on_notice is None,
            r.on_line is None,
            r.on_finished is None,
    {
        ChildTask {
            exe,
            args,
            envs: Vec::new(),
            hide_window: true,
            on_progress: None,
            on_notice: None,
            on_line: None,
            on_finished: None,
        }
    }

    /// The tool and its arguments are the same, as is its window.
    pub open spec fn runs_like<Q, M, K, G>(&self, other: &ChildTask<Q, M, K, G>) -> bool {
        &&& self.exe == other.exe
        &&& self.args == other.args
        &&& self.hide_window == other.hide_window
    }

    /// Adds a variable to the environment of the tool.
    pub fn with_env(self, key: &str, value: &str) -> (r: Self)
        ensures
            r.runs_like(&self),
            r.envs@.len() == self.envs@.len() + 1,
            r.envs@.drop_last() == self.envs@,
            r.envs@.last().0@ == key@,
            r.envs@.last().1@ == value@,
            r.on_progress == self.on_progress,
            r.on_notice == self.on_notice,
            r.on_line == self.on_line,
            r.on_finished == self.on_finished,
    {
        let mut envs = self.envs;
        envs.push((key.to_owned(), value.to_owned()));
        assert(envs@.drop_last() =~= self.envs@);
        ChildTask { envs, ..self }
    }

    /// Has the tool write to the same log, where there is one.
    pub fn with_log(self, dir: Option<&str>, level: Level) -> (r: Self)
        ensures
            dir is None ==> r == self,
            dir matches Some(dir) ==> {
                &&& r.runs_like(&self)
                &&& r.envs@.len() == self.envs@.len() + 2
                &&& r.envs@.take(self.envs@.len() as int) == self.envs@
                &&& r.envs@[self.envs@.len() as int].0@ == "DSH_LOG_DIR"@
                &&& r.envs@[self.envs@.len() as int].1@ == dir@
                &&& r.envs@.last().0@ == "DSH_LOG_LEVEL"@
                &&& r.envs@.last().1@ == level.spec_name()
                &&& r.on_progress == self.on_progress
                &&& r.on_notice == self.on_notice
                &&& r.on_line == self.on_line
                &&& r.on_finished == self.on_finished
            },
    {
        match dir {
            Some(dir) => {
                let first = self.with_env("DSH_LOG_DIR", dir);
                let r = first.with_env("DSH_LOG_LEVEL", level.as_str());
                assert(r.envs@.take(self.envs@.len() as int) =~= first.envs@.drop_last());
                assert(r.envs@[self.envs@.len() as int] == first.envs@.last()) by {
                    assert(r.envs@.drop_last()[self.envs@.len() as int] == first.envs@.last());
                }
                r
            },
            None => self,
        }
    }

    pub fn with_progress<Q: Fn(u32, u32)>(self, on_progress: Q) -> (r: ChildTask<Q, N, L, F>)
        ensures
            r.runs_like(&self),
            r.envs == self.envs,
            r.on_progress == Some(on_progress),
            r.on_notice == self.on_notice,
            r.on_line == self.on_line,
            r.on_finished == self.on_finished,
    {
        ChildTask {
            exe: self.exe,
            args: self.args,
            envs: self.envs,
            hide_window: self.hide_window,
            on_progress: Some(on_progress),
            on_notice: self.on_notice,
            on_line: self.on_line,
            on_finished: self.on_finished,
        }
    }

    pub fn with_notice<Q: Fn(String)>(self, on_notice: Q) -> (r: ChildTask<P, Q, L, F>)
        ensures
            r.runs_like(&self),
            r.envs == self.envs,
            r.on_progress == self.on_progress,
            r.on_notice == Some(on_notice),
            r.on_line == self.on_line,
            r.on_finished == self.on_finished,
    {
        ChildTask {
            exe: self.exe,
            args: self.args,
            envs: self.envs,
            hide_window: self.hide_window,
            on_progress: self.on_progress,
            on_notice: Some(on_notice),
            on_line: self.on_line,
            on_finished: self.on_finished,
        }
    }

    pub fn with_line<Q: Fn(String)>(self, on_line: Q) -> (r: ChildTask<P, N, Q, F>)
        ensures
            r.runs_like(&self),
            r.envs == self.envs,
            r.on_progress == self.on_progress,
            r.on_notice == self.on_notice,
            r.on_line == Some(on_line),
            r.on_finished == self.on_finished,
    {
        ChildTask {
            exe: self.exe,
            args: self.args,
            envs: self.envs,
            hide_window: self.hide_window,
            on_progress: self.on_progress,
            on_notice: self.on_notice,
            on_line: Some(on_line),
            on_finished: self.on_finished,
        }
    }

    pub fn with_finished<Q: Fn(bool, String)>(self, on_finished: Q) -> (r: ChildTask<P, N, L, Q>)
        ensures
            r.runs_like(&self),
            r.envs == self.envs,
            r.on_progress == self.on_progress,
            r.on_notice == self.on_notice,
            r.on_line == self.on_line,
            r.on_finished == Some(on_finished),
    {
        ChildTask {
            exe: self.exe,
            args: self.args,
            envs: self.envs,
            hide_window: self.hide_window,
            on_progress: self.on_progress,
            on_notice: self.on_notice,
            on_line: self.on_line,
            on_finished: Some(on_finished),
        }
    }
}

/// What a tool says with a line.
#[derive(Debug, Clone, PartialEq, Eq)]
pub enum TaskLine {
    Progress { done: u32, total: u32 },
    Notice { text: String },
    /// A line of the protocol that says nothing.
    Ignored,
    /// A line that is not of the protocol.
    Other { line: String },
}

/// The numbers of a progress line, where both are there.
pub open spec fn progress_of(rest: Seq<char>) -> Option<(int, int)> {
    let fields = split(rest, '\t', 3);
    match (
        parsed(field(fields, 0), u32::MAX as int),
        parsed(field(fields, 1), u32::MAX as int),
    ) {
        (Some(done), Some(total)) => Some((done, total)),
        _ => None,
    }
}

/// `r` is what a tool says with `line`.
pub open spec fn says(line: Seq<char>, r: TaskLine) -> bool {
    if begins(line, "PROGRESS\t"@) {
        match progress_of(line.skip("PROGRESS\t"@.len() as int)) {
            Some(numbers) => r matches TaskLine::Progress { done, total } && (
                done as int,
                total as int,
            ) == numbers,
            None => r is Ignored,
        }
    } else if begins(line, "NOTICE\t"@) {
        let text = trimmed(line.skip("NOTICE\t"@.len() as int));
        if text.len() > 0 {
            r matches TaskLine::Notice { text: said } && said@ == text
        } else {
            r is Ignored
        }
    } else {
        r matches TaskLine::Other { line: said } && said@ == line
    }
}

fn parse_field(fields: &Vec<String>, i: usize) -> (r: Option<u32>)
    ensures
        match r {
            Some(n) => parsed(field(texts(fields@), i as int), u32::MAX as int) == Some(n as int),
            None => parsed(field(texts(fields@), i as int), u32::MAX as int) is None,
        },
{
    if i < fields.len() {
        assert(texts(fields@)[i as int] == fields@[i as int]@);
        parse_u32(fields[i].as_str())
    } else {
        None
    }
}

/// Reads a line that a tool wrote.
pub fn read_line(line: &str) -> (r: TaskLine)
    ensures
        says(line@, r),
{
    if let Some(rest) = strip_prefix(line, "PROGRESS\t") {
        let fields = split_on(rest, '\t', 3);
        match (parse_field(&fields, 0), parse_field(&fields, 1)) {
            (Some(done), Some(total)) => TaskLine::Progress { done, total },
            _ => TaskLine::Ignored,
        }
    } else if let Some(rest) = strip_prefix(line, "NOTICE\t") {
        let text = trim(rest);
        if text.unicode_len() > 0 {
            TaskLine::Notice { text: text.to_owned() }
        } else {
            TaskLine::Ignored
        }
    } else {
        TaskLine::Other { line: line.to_owned() }
    }
}

/// What is told of a tool that could not be started.
pub fn start_failure(exe: &str, error: &str) -> (r: String)
    ensures
        r@ == "无法启动 "@ + exe@ + ": "@ + error@,
{
    let mut out: Vec<char> = Vec::new();
    push_text(&mut out, "无法启动 ");
    push_text(&mut out, exe);
    push_text(&mut out, ": ");
    push_text(&mut out, error);
    assert(out@ =~= "无法启动 "@ + exe@ + ": "@ + error@);
    string_of(out)
}

/// How a tool ended.
#[derive(Debug, Clone, Copy, PartialEq, Eq, Structural)]
pub struct TaskEnd {
    pub success: bool,
    pub exit_code: i32,
}

impl TaskEnd {
    /// What waiting for the tool gave: whether it ended well, and its exit code where it has
    /// one; nothing where the wait failed.
    pub fn of(status: Option<(bool, Option<i32>)>) -> (r: TaskEnd)
        ensures
            r.success == (status matches Some((true, _))),
            r.exit_code == (match status {
                Some((_, Some(code))) => code,
                _ => -1i32,
            }),
    {
        match status {
            Some((success, Some(exit_code))) => TaskEnd { success, exit_code },
            Some((success, None)) => TaskEnd { success, exit_code: -1 },
            None => TaskEnd { success: false, exit_code: -1 },
        }
    }

    /// What is told of the end: nothing of one that went well, else the exit code and what
    /// the tool had to say.
    pub open spec fn spec_message(self, exe: Seq<char>, stderr: Seq<char>) -> Seq<char> {
        if self.success {
            Seq::empty()
        } else {
            let headline = exe + " 执行失败（exit="@ + signed_decimal(self.exit_code as int)
                + "）"@;
            if trimmed(stderr).len() == 0 {
                headline
            } else {
                headline + "："@ + trimmed(stderr)
            }
        }
    }

    pub fn message(&self, exe: &str, stderr: &str) -> (r: String)
        ensures
            r@ == self.spec_message(exe@, stderr@),
            self.success ==> r@.len() == 0,
            !self.success && trimmed(stderr@).len() == 0 ==> r@ == exe@ + " 执行失败（exit="@
                + signed_decimal(self.exit_code as int) + "）"@,
            !self.success && trimmed(stderr@).len() > 0 ==> r@ == exe@ + " 执行失败（exit="@
                + signed_decimal(self.exit_code as int) + "）"@ + "："@ + trimmed(stderr@),
    {
        let mut out: Vec<char> = Vec::new();
        if self.success {
            return string_of(out);
        }
        push_text(&mut out, exe);
        push_text(&mut out, " 执行失败（exit=");
        push_signed(&mut out, self.exit_code as i64);
        push_text(&mut out, "）");
        let said = trim(stderr);
        if said.unicode_len() > 0 {
            push_text(&mut out, "：");
            push_text(&mut out, said);
        }
        assert(out@ =~= self.spec_message(exe@, stderr@));
        string_of(out)
    }
}

/// A progress line reads back as the numbers that were written.
pub proof fn progress_is_read_back(done: u32, total: u32, r: TaskLine)
    requires
        says("PROGRESS\t"@ + decimal(done as nat) + seq!['\t'] + decimal(total as nat), r),
    ensures
        r == (TaskLine::Progress { done, total }),
{
    let line = "PROGRESS\t"@ + decimal(done as nat) + seq!['\t'] + decimal(total as nat);
    let prefix = "PROGRESS\t"@;
    let rest = decimal(done as nat) + seq!['\t'] + decimal(total as nat);
    assert(line.take(prefix.len() as int) =~= prefix);
    assert(line.skip(prefix.len() as int) =~= rest);
    decimal_reads_back(done as nat);
    decimal_reads_back(total as nat);
    let at = decimal(done as nat).len() as int;
    separator_is_found(decimal(done as nat), '\t', decimal(total as nat));
    assert(rest.take(at) =~= decimal(done as nat));
    assert(rest.skip(at + 1) =~= decimal(total as nat));
    no_separator(decimal(total as nat), '\t');
    reveal_with_fuel(split, 3);
    assert(split(rest, '\t', 3) =~= seq![decimal(done as nat), decimal(total as nat)]);
}

/// A notice reads back as the text that was written, without the blanks around it.
pub proof fn notice_is_read_back(text: Seq<char>, r: TaskLine)
    requires
        trimmed(text).len() > 0,
        says("NOTICE\t"@ + text, r),
    ensures
        r matches TaskLine::Notice { text: said } && said@ == trimmed(text),
{
    reveal_strlit("NOTICE\t");
    reveal_strlit("PROGRESS\t");
    let line = "NOTICE\t"@ + text;
    assert(line.take(7) =~= "NOTICE\t"@);
    assert(line.skip(7) =~= text);
    assert(line[0] == 'N');
    assert(line.len() >= 9 ==> line.take(9)[0] == 'N');
}

/// A tool that was given more to tell, or more of an environment, is still the same tool.
pub proof fn settings_do_not_change_the_tool<P, N, L, F, Q, M, K, G>(
    task: &ChildTask<P, N, L, F>,
    other: &ChildTask<Q, M, K, G>,
)
    requires
        task.runs_like(other),
    ensures
        task.exe == other.exe,
        task.args == other.args,
        task.hide_window == other.hide_window,
{
}

/// A line that begins with neither word of the protocol is taken as it is; one that does, and
/// has no numbers or no text behind it, says nothing.
pub proof fn other_lines_are_taken_as_they_are(line: Seq<char>, rest: Seq<char>, r: TaskLine)
    ensures
        !begins(line, "PROGRESS\t"@) && !begins(line, "NOTICE\t"@) ==> (says(line, r) <==> (
        r matches TaskLine::Other { line: said } && said@ == line)),
        trimmed(rest).len() == 0 ==> (says("NOTICE\t"@ + rest, r) <==> r is Ignored),
        progress_of(rest) is None ==> (says("PROGRESS\t"@ + rest, r) <==> r is Ignored),
        parsed(field(split(rest, '\t', 3), 0), u32::MAX as int) is None
            ==> progress_of(rest) is None,
        parsed(field(split(rest, '\t', 3), 1), u32::MAX as int) is None
            ==> progress_of(rest) is None,
{
    reveal_strlit("NOTICE\t");
    reveal_strlit("PROGRESS\t");
    let notice = "NOTICE\t"@ + rest;
    assert(notice.take(7) =~= "NOTICE\t"@);
    assert(notice.skip(7) =~= rest);
    assert(notice[0] == 'N');
    assert(notice.len() >= 9 ==> notice.take(9)[0] == 'N');
    let progress = "PROGRESS\t"@ + rest;
    assert(progress.take(9) =~= "PROGRESS\t"@);
    assert(progress.skip(9) =~= rest);
}

} // verus!
