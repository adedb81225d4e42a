//! What an import has done: the counts and the rows that the importing tool writes, what the
//! user is told of them, and how the import goes on from there.

use vstd::prelude::*;

use crate::digits::{decimal, decimal_reads_back, parse_i32, parse_u32, parsed, parsed_signed, push_number, push_text};
use crate::fields::{
    field, join, joined, separator_is_found, split, split_on, texts, words, words_of,
};
use crate::text::{begins, same_text, starts_with, string_of, strip_prefix, trim, trimmed};
use crate::ui_enums::{
    TargetNoticeTone, IMPORT_RESULT_EXACT, IMPORT_RESULT_FAILED, IMPORT_RESULT_SIMILAR,
};

verus! {

/// How many rows a report holds.
pub const RESULT_ROWS_MAX: usize = 480;

/// The counts of an import.
#[derive(Debug, Clone, Copy, PartialEq, Eq, Structural)]
pub struct DoneStats {
    pub imported: u32,
    pub skipped: u32,
    pub similar: u32,
    pub failed: u32,
}

/// A file that was not simply taken in.
#[derive(Debug, Clone, PartialEq, Eq)]
pub struct ResultRow {
    /// One of `IMPORT_RESULT_EXACT`, `IMPORT_RESULT_SIMILAR` and `IMPORT_RESULT_FAILED`.
    pub kind: i32,
    pub source: String,
    /// The asset that is there already, or why the file failed.
    pub existing: String,
    /// How far a similar asset is from it.
    pub distance: i32,
}

/// The number behind `key` in a word that begins with it.
pub open spec fn figure(word: Seq<char>, key: Seq<char>) -> Option<int> {
    if begins(word, key) {
        parsed(word.skip(key.len() as int), u32::MAX as int)
    } else {
        None
    }
}

/// The counts once a word of the line is read: it sets the count that it names.
pub open spec fn noted(stats: DoneStats, word: Seq<char>) -> DoneStats {
    if figure(word, "imported="@) is Some {
        DoneStats { imported: figure(word, "imported="@)->0 as u32, ..stats }
    } else if figure(word, "skipped="@) is Some {
        DoneStats { skipped: figure(word, "skipped="@)->0 as u32, ..stats }
    } else if figure(word, "similar="@) is Some {
        DoneStats { similar: figure(word, "similar="@)->0 as u32, ..stats }
    } else if figure(word, "failed="@) is Some {
        DoneStats { failed: figure(word, "failed="@)->0 as u32, ..stats }
    } else {
        stats
    }
}

/// The counts that a line of words gives. A count that it does not name is zero.
pub open spec fn tallied(line: Seq<Seq<char>>) -> DoneStats
    decreases line.len(),
{
    if line.len() == 0 {
        DoneStats { imported: 0, skipped: 0, similar: 0, failed: 0 }
    } else {
        noted(tallied(line.drop_last()), line.last())
    }
}

fn figure_of(word: &str, key: &str) -> (r: Option<u32>)
    ensures
        match r {
            Some(n) => figure(word@, key@) == Some(n as int),
            None => figure(word@, key@) is None,
        },
{
    match strip_prefix(word, key) {
        Some(rest) => parse_u32(rest),
        None => None,
    }
}

fn note(stats: DoneStats, word: &str) -> (r: DoneStats)
    ensures
        r == noted(stats, word@),
{
    if let Some(n) = figure_of(word, "imported=") {
        DoneStats { imported: n, ..stats }
    } else if let Some(n) = figure_of(word, "skipped=") {
        DoneStats { skipped: n, ..stats }
    } else if let Some(n) = figure_of(word, "similar=") {
        DoneStats { similar: n, ..stats }
    } else if let Some(n) = figure_of(word, "failed=") {
        DoneStats { failed: n, ..stats }
    } else {
        stats
    }
}

/// The counts of a line that begins with `done:`.
pub fn read_done(rest: &str) -> (r: DoneStats)
    ensures
        r == tallied(words(rest@)),
{
    let line = words_of(rest);
    let mut stats = DoneStats { imported: 0, skipped: 0, similar: 0, failed: 0 };
    let mut i: usize = 0;
    while i < line.len()
        invariant
            i <= line@.len(),
            stats == tallied(texts(line@).take(i as int)),
        decreases line@.len() - i,
    {
        let ghost next = texts(line@).take(i + 1);
        assert(next.drop_last() =~= texts(line@).take(i as int));
        assert(next.last() == line@[i as int]@);
        stats = note(stats, line[i].as_str());
        i = i + 1;
    }
    assert(texts(line@).take(i as int) =~= texts(line@));
    stats
}

pub open spec fn row_kind(word: Seq<char>) -> i32 {
    if word == "similar"@ {
        IMPORT_RESULT_SIMILAR
    } else if word == "failed"@ {
        IMPORT_RESULT_FAILED
    } else {
        IMPORT_RESULT_EXACT
    }
}

pub open spec fn row_distance(word: Seq<char>) -> int {
    match parsed_signed(word, i32::MIN as int, i32::MAX as int) {
        Some(n) => n,
        None => 0,
    }
}

/// `row` is what the fields of a line hold: its kind, a distance, the file, and all that is
/// left of the line.
pub open spec fn row_reads(rest: Seq<char>, row: ResultRow) -> bool {
    let fields = split(rest, '\t', 4);
    &&& row.kind == row_kind(field(fields, 0))
    &&& row.distance == row_distance(field(fields, 1))
    &&& row.source@ == field(fields, 2)
    &&& row.existing@ == field(fields, 3)
}

fn field_of(fields: &Vec<String>, i: usize) -> (r: String)
    ensures
        r@ == field(texts(fields@), i as int),
{
    if i < fields.len() {
        assert(texts(fields@)[i as int] == fields@[i as int]@);
        fields[i].clone()
    } else {
        string_of(Vec::new())
    }
}

/// The row of a line that begins with `RESULTITEM`.
pub fn read_row(rest: &str) -> (r: ResultRow)
    ensures
        row_reads(rest@, r),
        r.kind == 1 <==> field(split(rest@, '\t', 4), 0) == "similar"@,
        r.kind == 2 <==> field(split(rest@, '\t', 4), 0) == "failed"@,
        r.kind == 0 || r.kind == 1 || r.kind == 2,
        r.source@ == field(split(rest@, '\t', 4), 2),
        r.existing@ == field(split(rest@, '\t', 4), 3),
{
    proof {
        reveal_strlit("similar");
        reveal_strlit("failed");
        assert("similar"@.len() != "failed"@.len());
    }
    let fields = split_on(rest, '\t', 4);
    let word = field_of(&fields, 0);
    let kind: i32 = if same_text(word.as_str(), "similar") {
        IMPORT_RESULT_SIMILAR
    } else if same_text(word.as_str(), "failed") {
        IMPORT_RESULT_FAILED
    } else {
        IMPORT_RESULT_EXACT
    };
    let distance: i32 = match parse_i32(field_of(&fields, 1).as_str()) {
        Some(n) => n,
        None => 0,
    };
    ResultRow { kind, source: field_of(&fields, 2), existing: field_of(&fields, 3), distance }
}

/// What the importing tool has written so far.
#[derive(Debug, Clone, PartialEq, Eq)]
pub struct ImportReport {
    pub stats: Option<DoneStats>,
    pub rows: Vec<ResultRow>,
}

impl ImportReport {
    /// There are not more rows than a report holds, and each names a file.
    pub open spec fn wf(&self) -> bool {
        &&& self.rows@.len() <= RESULT_ROWS_MAX
        &&& forall|i: int| 0 <= i < self.rows@.len()
            ==> (#[trigger] self.rows@[i]).source@.len() > 0
    }

    pub fn new() -> (r: ImportReport)
        ensures
            r.wf(),
            r.stats is None,
            r.rows@.len() == 0,
    {
        ImportReport { stats: None, rows: Vec::new() }
    }

    /// `after` is the report once `line` is read.
    pub open spec fn reads(&self, line: Seq<char>, after: &ImportReport) -> bool {
        if begins(line, "done:"@) {
            &&& after.stats == Some(tallied(words(line.skip("done:"@.len() as int))))
            &&& after.rows@ == self.rows@
        } else if begins(line, "RESULTITEM\t"@) {
            let rest = line.skip("RESULTITEM\t"@.len() as int);
            &&& after.stats == self.stats
            &&& if field(split(rest, '\t', 4), 2).len() > 0 && self.rows@.len() < RESULT_ROWS_MAX {
                &&& after.rows@.len() == self.rows@.len() + 1
                &&& after.rows@.drop_last() == self.rows@
                &&& row_reads(rest, after.rows@.last())
            } else {
                after.rows@ == self.rows@
            }
        } else {
            &&& after.stats == self.stats
            &&& after.rows@ == self.rows@
        }
    }

    /// Reads a line that the importing tool wrote.
    pub fn read(&mut self, line: &str)
        requires
            old(self).wf(),
        ensures
            final(self).wf(),
            old(self).reads(line@, final(self)),
    {
        if let Some(rest) = strip_prefix(line, "done:") {
            self.stats = Some(read_done(rest));
        } else if let Some(rest) = strip_prefix(line, "RESULTITEM\t") {
            let row = read_row(rest);
            if row.source.as_str().unicode_len() > 0 && self.rows.len() < RESULT_ROWS_MAX {
                let ghost before = self.rows@;
                self.rows.push(row);
                assert(self.rows@.drop_last() =~= before);
            }
        }
    }
}

/// The parts of the summary: what came in, and what else there was.
pub open spec fn summary_parts(stats: DoneStats) -> Seq<Seq<char>> {
    let parts = seq!["新增 "@ + decimal(stats.imported as nat)];
    let parts = if stats.skipped > 0 {
        parts.push("重复 "@ + decimal(stats.skipped as nat))
    } else {
        parts
    };
    let parts = if stats.similar > 0 {
        parts.push("相似 "@ + decimal(stats.similar as nat))
    } else {
        parts
    };
    if stats.failed > 0 {
        parts.push("失败 "@ + decimal(stats.failed as nat))
    } else {
        parts
    }
}

/// What the user is told of an import that went well. One that brought nothing new says so,
/// so that it is not taken for a failure.
pub open spec fn summary(stats: Option<DoneStats>) -> Seq<char> {
    match stats {
        Some(s) => if s.imported == 0 && s.failed == 0 {
            if s.similar > 0 {
                "导入完成："@ + decimal(s.skipped as nat) + " 个素材已在库中 · 相似素材 "@ + decimal(
                    s.similar as nat,
                ) + " 个已导入，见明细"@
            } else {
                "导入完成："@ + decimal(s.skipped as nat) + " 个素材已在库中，未新增"@
            }
        } else {
            "导入完成："@ + joined(summary_parts(s), " · "@)
        },
        None => "导入完成，正在后台生成缩略图..."@,
    }
}

fn part(name: &str, n: u32) -> (r: String)
    ensures
        r@ == name@ + decimal(n as nat),
{
    let mut out: Vec<char> = Vec::new();
    push_text(&mut out, name);
    push_number(&mut out, n as u64);
    assert(out@ =~= name@ + decimal(n as nat));
    string_of(out)
}

fn parts_of(stats: DoneStats) -> (r: Vec<String>)
    ensures
        texts(r@) == summary_parts(stats),
{
    let mut parts: Vec<String> = Vec::new();
    parts.push(part("新增 ", stats.imported));
    if stats.skipped > 0 {
        parts.push(part("重复 ", stats.skipped));
    }
    if stats.similar > 0 {
        parts.push(part("相似 ", stats.similar));
    }
    if stats.failed > 0 {
        parts.push(part("失败 ", stats.failed));
    }
    assert(texts(parts@) =~= summary_parts(stats));
    parts
}

/// What the user is told of an import that went well.
pub fn summarize(stats: Option<DoneStats>) -> (r: String)
    ensures
        r@ == summary(stats),
        stats is None ==> r@ == "导入完成，正在后台生成缩略图..."@,
        stats matches Some(s) ==> {
            &&& s.imported == 0 && s.failed == 0 && s.similar == 0 ==> r@ == "导入完成："@ + decimal(
                s.skipped as nat,
            ) + " 个素材已在库中，未新增"@
            &&& s.imported == 0 && s.failed == 0 && s.similar > 0 ==> r@ == "导入完成："@ + decimal(
                s.skipped as nat,
            ) + " 个素材已在库中 · 相似素材 "@ + decimal(s.similar as nat) + " 个已导入，见明细"@
            &&& s.imported > 0 || s.failed > 0 ==> r@ == "导入完成："@ + joined(
                summary_parts(s),
                " · "@,
            )
        },
{
    let mut out: Vec<char> = Vec::new();
    match stats {
        Some(s) => {
            push_text(&mut out, "导入完成：");
            if s.imported == 0 && s.failed == 0 {
                push_number(&mut out, s.skipped as u64);
                if s.similar > 0 {
                    push_text(&mut out, " 个素材已在库中 · 相似素材 ");
                    push_number(&mut out, s.similar as u64);
                    push_text(&mut out, " 个已导入，见明细");
                } else {
                    push_text(&mut out, " 个素材已在库中，未新增");
                }
            } else {
                push_text(&mut out, join(&parts_of(s), " · ").as_str());
            }
        },
        None => push_text(&mut out, "导入完成，正在后台生成缩略图..."),
    }
    assert(out@ =~= summary(stats));
    string_of(out)
}

/// What is left of the message of the importing tool without its name.
pub open spec fn plain_message(message: Seq<char>) -> Seq<char> {
    let said = trimmed(message);
    if begins(said, "sample-library failed: "@) {
        said.skip("sample-library failed: "@.len() as int)
    } else {
        said
    }
}

/// What the user is told of an import that failed.
pub open spec fn import_failure(message: Seq<char>) -> Seq<char> {
    if plain_message(message).len() == 0 {
        "导入失败"@
    } else {
        "导入失败："@ + plain_message(message)
    }
}

/// What the user is told of an import that failed.
pub fn failure_text(message: &str) -> (r: String)
    ensures
        r@ == import_failure(message@),
        plain_message(message@).len() == 0 ==> r@ == "导入失败"@,
        plain_message(message@).len() > 0 ==> r@ == "导入失败："@ + plain_message(message@),
{
    let said = trim(message);
    let plain = match strip_prefix(said, "sample-library failed: ") {
        Some(rest) => rest,
        None => said,
    };
    if plain.unicode_len() == 0 {
        "导入失败".to_owned()
    } else {
        "导入失败：".to_owned().concat(plain)
    }
}

/// How a notice of the importing tool is meant: what is only a hint goes away by itself.
pub fn tone_of(notice: &str) -> (r: TargetNoticeTone)
    ensures
        r == if begins(notice@, "提示："@) {
            TargetNoticeTone::Success
        } else {
            TargetNoticeTone::Warning
        },
{
    if starts_with(notice, "提示：") {
        TargetNoticeTone::Success
    } else {
        TargetNoticeTone::Warning
    }
}

/// The name of the speed at which the tools work.
pub open spec fn mode_name(fast: bool) -> Seq<char> {
    if fast {
        "fast"@
    } else {
        "background"@
    }
}

/// The name of the speed at which the tools work.
pub fn import_mode_arg(fast: bool) -> (r: &'static str)
    ensures
        r@ == mode_name(fast),
        fast ==> r@ == "fast"@,
        !fast ==> r@ == "background"@,
{
    if fast {
        "fast"
    } else {
        "background"
    }
}

/// Where an import has got to.
#[derive(Debug, Clone, Copy, PartialEq, Eq, Structural)]
pub enum JobStage {
    /// The files come in.
    Importing,
    /// The thumbnails are made.
    Deriving,
    Over,
}

/// An import on its way. While it is not over, nothing else may change the library.
pub struct ImportJob {
    root: String,
    fast: bool,
    stage: JobStage,
}

/// What comes of an import once the files are in, or are not.
#[derive(Debug, Clone, PartialEq, Eq)]
pub enum ImportStep {
    /// The user is told, and nothing is loaded anew.
    Failed { message: String },
    /// The thumbnails are made next, with these arguments.
    Derive { summary: String, show_rows: bool, args: Vec<String> },
    /// The tools for the thumbnails are missing. The user is told that, too.
    NoTools { summary: String, show_rows: bool, warning: String },
}

/// The arguments of the tool that makes the thumbnails.
pub open spec fn derive_args(root: Seq<char>, worker: Seq<char>, fast: bool) -> Seq<Seq<char>> {
    seq!["--library"@, root, "--worker-exe"@, worker, "--mode"@, mode_name(fast)]
}

impl ImportJob {
    pub closed spec fn root(&self) -> Seq<char> {
        self.root@
    }

    pub closed spec fn fast(&self) -> bool {
        self.fast
    }

    pub closed spec fn spec_stage(&self) -> JobStage {
        self.stage
    }

    pub fn stage(&self) -> (r: JobStage)
        ensures
            r == self.spec_stage(),
    {
        self.stage
    }

    /// Whether the library is being changed.
    pub fn is_running(&self) -> (r: bool)
        ensures
            r == !(self.spec_stage() is Over),
    {
        self.stage != JobStage::Over
    }

    /// Begins an import, where the library can be made and the importing tool is there. Else
    /// the user is told.
    pub fn start(
        root: &str,
        root_error: Option<&str>,
        helper: &str,
        helper_found: bool,
        fast: bool,
    ) -> (r: Result<ImportJob, String>)
        ensures
            match root_error {
                Some(error) => r matches Err(notice) && notice@ == "无法创建素材库目录 "@ + root@
                    + ": "@ + error@ + "（请检查 --library-root 参数与磁盘权限）"@,
                None => if !helper_found {
                    r matches Err(notice) && notice@ == "未找到导入工具 "@ + helper@
                        + "，请确认与主程序同目录"@
                } else {
                    r matches Ok(job) && job.root() == root@ && job.fast() == fast
                        && job.spec_stage() is Importing
                },
            },
    {
        if let Some(error) = root_error {
            let mut out: Vec<char> = Vec::new();
            push_text(&mut out, "无法创建素材库目录 ");
            push_text(&mut out, root);
            push_text(&mut out, ": ");
            push_text(&mut out, error);
            push_text(&mut out, "（请检查 --library-root 参数与磁盘权限）");
            assert(out@ =~= "无法创建素材库目录 "@ + root@ + ": "@ + error@
                + "（请检查 --library-root 参数与磁盘权限）"@);
            return Err(string_of(out));
        }
        if !helper_found {
            let notice = "未找到导入工具 ".to_owned().concat(helper).concat(
                "，请确认与主程序同目录",
            );
            return Err(notice);
        }
        Ok(ImportJob { root: root.to_owned(), fast, stage: JobStage::Importing })
    }

    /// The importing tool has ended.
    pub fn imported(
        &mut self,
        success: bool,
        message: &str,
        report: &ImportReport,
        tools_found: bool,
        worker: &str,
    ) -> (r: ImportStep)
        requires
            old(self).spec_stage() is Importing,
        ensures
            final(self).root() == old(self).root(),
            final(self).fast() == old(self).fast(),
            if !success {
                &&& final(self).spec_stage() is Over
                &&& r matches ImportStep::Failed { message: said } && said@ == import_failure(
                    message@,
                )
            } else if !tools_found {
                &&& final(self).spec_stage() is Over
                &&& r matches ImportStep::NoTools { summary: said, show_rows, warning } && said@
                    == summary(report.stats) && show_rows == (report.rows@.len() > 0) && warning@
                    == "素材已导入，但未找到缩略图工具（derive-thumbs/decode-worker），\n 缩略图暂缺；请使用完整安装包运行"@
            } else {
                &&& final(self).spec_stage() is Deriving
                &&& r matches ImportStep::Derive { summary: said, show_rows, args } && said@
                    == summary(report.stats) && show_rows == (report.rows@.len() > 0) && texts(
                    args@,
                ) == derive_args(old(self).root(), worker@, old(self).fast())
            },
    {
        if !success {
            self.stage = JobStage::Over;
            return ImportStep::Failed { message: failure_text(message) };
        }
        let summary = summarize(report.stats);
        let show_rows = report.rows.len() > 0;
        if !tools_found {
            self.stage = JobStage::Over;
            return ImportStep::NoTools {
                summary,
                show_rows,
                warning:
                    "素材已导入，但未找到缩略图工具（derive-thumbs/decode-worker），\n 缩略图暂缺；请使用完整安装包运行".to_owned(),
            };
        }
        let mut args: Vec<String> = Vec::new();
        args.push("--library".to_owned());
        args.push(self.root.clone());
        args.push("--worker-exe".to_owned());
        args.push(worker.to_owned());
        args.push("--mode".to_owned());
        args.push(import_mode_arg(self.fast).to_owned());
        assert(texts(args@) =~= derive_args(self.root(), worker@, self.fast()));
        self.stage = JobStage::Deriving;
        ImportStep::Derive { summary, show_rows, args }
    }

    /// The tool for the thumbnails has ended. What came in stays, but the user is told what
    /// went wrong.
    pub fn derived(&mut self, success: bool, message: &str) -> (r: Option<String>)
        requires
            old(self).spec_stage() is Deriving,
        ensures
            final(self).spec_stage() is Over,
            final(self).root() == old(self).root(),
            final(self).fast() == old(self).fast(),
            if !success && trimmed(message@).len() > 0 {
                r matches Some(warning) && warning@ == "缩略图派生未全部成功："@ + trimmed(message@)
            } else {
                r is None
            },
    {
        self.stage = JobStage::Over;
        let said = trim(message);
        if !success && said.unicode_len() > 0 {
            Some("缩略图派生未全部成功：".to_owned().concat(said))
        } else {
            None
        }
    }
}

/// A count reads back as it was written.
proof fn figure_is_read_back(key: Seq<char>, n: u32)
    ensures
        figure(key + decimal(n as nat), key) == Some(n as int),
{
    let word = key + decimal(n as nat);
    assert(word.take(key.len() as int) =~= key);
    assert(word.skip(key.len() as int) =~= decimal(n as nat));
    decimal_reads_back(n as nat);
}

/// A word has no count behind a key that it does not begin with.
proof fn other_keys_are_not_read(word: Seq<char>, key: Seq<char>, at: int)
    requires
        0 <= at < key.len(),
        word.len() <= at || word[at] != key[at],
    ensures
        figure(word, key) is None,
{
    if word.len() >= key.len() {
        assert(word.take(key.len() as int)[at] == word[at]);
    }
}

/// The counts that the importing tool writes are read back.
pub proof fn counts_are_read_back(stats: DoneStats)
    ensures
        tallied(
            seq![
                "imported="@ + decimal(stats.imported as nat),
                "skipped="@ + decimal(stats.skipped as nat),
                "similar="@ + decimal(stats.similar as nat),
                "failed="@ + decimal(stats.failed as nat),
            ],
        ) == stats,
{
    reveal_strlit("imported=");
    reveal_strlit("skipped=");
    reveal_strlit("similar=");
    reveal_strlit("failed=");
    let imported = "imported="@ + decimal(stats.imported as nat);
    let skipped = "skipped="@ + decimal(stats.skipped as nat);
    let similar = "similar="@ + decimal(stats.similar as nat);
    let failed = "failed="@ + decimal(stats.failed as nat);
    figure_is_read_back("imported="@, stats.imported);
    figure_is_read_back("skipped="@, stats.skipped);
    figure_is_read_back("similar="@, stats.similar);
    figure_is_read_back("failed="@, stats.failed);
    other_keys_are_not_read(skipped, "imported="@, 0);
    other_keys_are_not_read(similar, "imported="@, 0);
    other_keys_are_not_read(similar, "skipped="@, 1);
    other_keys_are_not_read(failed, "imported="@, 0);
    other_keys_are_not_read(failed, "skipped="@, 0);
    other_keys_are_not_read(failed, "similar="@, 0);
    let line = seq![imported, skipped, similar, failed];
    assert(line.drop_last() =~= seq![imported, skipped, similar]);
    assert(line.drop_last().drop_last() =~= seq![imported, skipped]);
    assert(line.drop_last().drop_last().drop_last() =~= seq![imported]);
    assert(seq![imported].drop_last() =~= Seq::empty());
    reveal_with_fuel(tallied, 5);
}

/// A row of the report reads back as it was written, where the file has no tab in its name.
pub proof fn rows_are_read_back(
    kind: Seq<char>,
    distance: u32,
    source: Seq<char>,
    existing: Seq<char>,
    row: ResultRow,
)
    requires
        forall|i: int| 0 <= i < kind.len() ==> #[trigger] kind[i] != '\t',
        distance <= i32::MAX,
        forall|i: int| 0 <= i < source.len() ==> #[trigger] source[i] != '\t',
        row_reads(
            kind + seq!['\t'] + decimal(distance as nat) + seq!['\t'] + source + seq!['\t'] + existing,
            row,
        ),
    ensures
        row.kind == row_kind(kind),
        row.distance == distance,
        row.source@ == source,
        row.existing@ == existing,
{
    let third = source + seq!['\t'] + existing;
    let second = decimal(distance as nat) + seq!['\t'] + third;
    let first = kind + seq!['\t'] + second;
    assert(first =~= kind + seq!['\t'] + decimal(distance as nat) + seq!['\t'] + source
        + seq!['\t'] + existing);
    decimal_reads_back(distance as nat);
    separator_is_found(kind, '\t', second);
    separator_is_found(decimal(distance as nat), '\t', third);
    separator_is_found(source, '\t', existing);
    assert(first.take(kind.len() as int) =~= kind);
    assert(first.skip(kind.len() as int + 1) =~= second);
    let width = decimal(distance as nat).len() as int;
    assert(second.take(width) =~= decimal(distance as nat));
    assert(second.skip(width + 1) =~= third);
    assert(third.take(source.len() as int) =~= source);
    assert(third.skip(source.len() as int + 1) =~= existing);
    reveal_with_fuel(split, 5);
    assert(split(first, '\t', 4) =~= seq![kind, decimal(distance as nat), source, existing]);
}

/// A report holds 480 rows, and reads a line as what it begins with: counts, a row, which needs
/// a file and room, or nothing.
pub proof fn reports_read_counts_and_rows(
    report: &ImportReport,
    line: Seq<char>,
    rest: Seq<char>,
    after: &ImportReport,
)
    ensures
        RESULT_ROWS_MAX == 480,
        !begins(line, "done:"@) && !begins(line, "RESULTITEM\t"@) && report.reads(line, after)
            ==> after.stats == report.stats && after.rows@ == report.rows@,
        report.reads("done:"@ + rest, after) ==> after.stats == Some(tallied(words(rest)))
            && after.rows@ == report.rows@,
        report.reads("RESULTITEM\t"@ + rest, after) ==> after.stats == report.stats,
        report.reads("RESULTITEM\t"@ + rest, after) && field(split(rest, '\t', 4), 2).len() > 0
            && report.rows@.len() < 480 ==> after.rows@.len() == report.rows@.len() + 1
            && after.rows@.drop_last() == report.rows@ && row_reads(rest, after.rows@.last()),
        report.reads("RESULTITEM\t"@ + rest, after) && (field(split(rest, '\t', 4), 2).len() == 0
            || report.rows@.len() >= 480) ==> after.rows@ == report.rows@,
{
    reveal_strlit("done:");
    reveal_strlit("RESULTITEM\t");
    let done = "done:"@ + rest;
    assert(done.take(5) =~= "done:"@);
    assert(done.skip(5) =~= rest);
    let item = "RESULTITEM\t"@ + rest;
    assert(item.take(11) =~= "RESULTITEM\t"@);
    assert(item.skip(11) =~= rest);
    assert(item.take(5)[0] == 'R');
    assert(!begins(item, "done:"@));
}

/// A row holds what its fields say: the kind by its word, the distance by its number and none
/// where there is no number, the file, and all that follows it.
pub proof fn rows_hold_their_fields(rest: Seq<char>, row: ResultRow, word: Seq<char>)
    ensures
        row_reads(rest, row) ==> row.kind == row_kind(field(split(rest, '\t', 4), 0)) && row.source@
            == field(split(rest, '\t', 4), 2) && row.existing@ == field(split(rest, '\t', 4), 3)
            && row.distance == row_distance(field(split(rest, '\t', 4), 1)),
        row_kind("similar"@) == 1,
        row_kind("failed"@) == 2,
        word != "similar"@ && word != "failed"@ ==> row_kind(word) == 0,
        parsed_signed(word, i32::MIN as int, i32::MAX as int) is None ==> row_distance(word) == 0,
        parsed_signed(word, i32::MIN as int, i32::MAX as int) matches Some(n) ==> row_distance(word)
            == n,
{
    reveal_strlit("similar");
    reveal_strlit("failed");
    assert("similar"@.len() != "failed"@.len());
}

/// A word with a count sets that count and no other, over what was set before; any other word
/// sets none.
pub proof fn later_words_set_their_count(line: Seq<Seq<char>>, n: u32, word: Seq<char>)
    ensures
        tallied(line.push("imported="@ + decimal(n as nat))) == (DoneStats {
            imported: n,
            ..tallied(line)
        }),
        tallied(line.push("skipped="@ + decimal(n as nat))) == (DoneStats {
            skipped: n,
            ..tallied(line)
        }),
        tallied(line.push("similar="@ + decimal(n as nat))) == (DoneStats {
            similar: n,
            ..tallied(line)
        }),
        tallied(line.push("failed="@ + decimal(n as nat))) == (DoneStats {
            failed: n,
            ..tallied(line)
        }),
        !begins(word, "imported="@) && !begins(word, "skipped="@) && !begins(word, "similar="@)
            && !begins(word, "failed="@) ==> tallied(line.push(word)) == tallied(line),
        tallied(Seq::<Seq<char>>::empty()) == (DoneStats {
            imported: 0,
            skipped: 0,
            similar: 0,
            failed: 0,
        }),
{
    reveal_strlit("imported=");
    reveal_strlit("skipped=");
    reveal_strlit("similar=");
    reveal_strlit("failed=");
    let imported = "imported="@ + decimal(n as nat);
    let skipped = "skipped="@ + decimal(n as nat);
    let similar = "similar="@ + decimal(n as nat);
    let failed = "failed="@ + decimal(n as nat);
    figure_is_read_back("imported="@, n);
    figure_is_read_back("skipped="@, n);
    figure_is_read_back("similar="@, n);
    figure_is_read_back("failed="@, n);
    other_keys_are_not_read(skipped, "imported="@, 0);
    other_keys_are_not_read(similar, "imported="@, 0);
    other_keys_are_not_read(similar, "skipped="@, 1);
    other_keys_are_not_read(failed, "imported="@, 0);
    other_keys_are_not_read(failed, "skipped="@, 0);
    other_keys_are_not_read(failed, "similar="@, 0);
    assert(line.push(imported).drop_last() =~= line);
    assert(line.push(skipped).drop_last() =~= line);
    assert(line.push(similar).drop_last() =~= line);
    assert(line.push(failed).drop_last() =~= line);
    assert(line.push(word).drop_last() =~= line);
}

/// A summary always says what is new, and of the rest only what there is.
pub proof fn summaries_leave_out_what_there_is_none_of(stats: DoneStats)
    ensures
        summary_parts(stats)[0] == "新增 "@ + decimal(stats.imported as nat),
        summary_parts(stats).len() == 1 + (if stats.skipped > 0 {
            1int
        } else {
            0
        }) + (if stats.similar > 0 {
            1int
        } else {
            0
        }) + (if stats.failed > 0 {
            1int
        } else {
            0
        }),
        stats.skipped > 0 ==> summary_parts(stats)[1] == "重复 "@ + decimal(stats.skipped as nat),
        stats.similar > 0 ==> summary_parts(stats)[if stats.skipped > 0 {
            2
        } else {
            1
        }] == "相似 "@ + decimal(stats.similar as nat),
        stats.failed > 0 ==> summary_parts(stats).last() == "失败 "@ + decimal(stats.failed as nat),
{
}

/// What the importing tool says of its failure is told without its name in front and without
/// the white space around it.
pub proof fn failures_are_told_without_the_name_of_the_tool(message: Seq<char>, rest: Seq<char>)
    ensures
        !begins(trimmed(message), "sample-library failed: "@) ==> plain_message(message) == trimmed(
            message,
        ),
        trimmed(message) == "sample-library failed: "@ + rest ==> plain_message(message) == rest,
{
    let name = "sample-library failed: "@;
    assert((name + rest).take(name.len() as int) =~= name);
    assert((name + rest).skip(name.len() as int) =~= rest);
}

/// The tool for the thumbnails is told the library, its worker and its speed.
pub proof fn thumbnails_are_made_with_these_arguments(
    root: Seq<char>,
    worker: Seq<char>,
    fast: bool,
)
    ensures
        derive_args(root, worker, fast).len() == 6,
        derive_args(root, worker, fast)[0] == "--library"@,
        derive_args(root, worker, fast)[1] == root,
        derive_args(root, worker, fast)[2] == "--worker-exe"@,
        derive_args(root, worker, fast)[3] == worker,
        derive_args(root, worker, fast)[4] == "--mode"@,
        derive_args(root, worker, true)[5] == "fast"@,
        derive_args(root, worker, false)[5] == "background"@,
{
}

} // verus!
