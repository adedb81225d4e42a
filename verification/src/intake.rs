//! Choosing what to import and where it goes: the files and folders that the user picked,
//! how many categories each brings along, the decision on the rest, and the list that the
//! importing tool is handed.

use vstd::prelude::*;

use crate::digits::{decimal, parse_usize, parsed, push_number, push_text};
#[allow(unused_imports)]
use crate::digits::{decimal_reads_back, numbers_are_written_digit_by_digit};
use crate::fields::texts;
use crate::library::INBOX_CATEGORY;
#[allow(unused_imports)]
use crate::paths::compared;
use crate::paths::{extension, path_extension, same_path, told};
use crate::report::{import_mode_arg, mode_name};
use crate::text::{
    ascii_folded, begins, same_text, string_of, strip_prefix, to_ascii_lower, trim, trimmed,
};
#[allow(unused_imports)]
use crate::text::{trimming_leaves_the_core, whitespace};
use crate::ui_enums::{
    CLASSIFY_CONFIRM_RESOLVE, CLASSIFY_HINT_EXISTING, CLASSIFY_HINT_INBOX, CLASSIFY_HINT_NEW,
};

verus! {

/// What the user picked.
#[derive(Debug, Clone, Copy, PartialEq, Eq, Structural)]
pub enum EntryKind {
    Directory,
    EmoPackage,
    LooseFile,
}

/// A directory, a package by its extension, or a file.
pub open spec fn entry_kind(is_dir: bool, extension: Option<Seq<char>>) -> EntryKind {
    if is_dir {
        EntryKind::Directory
    } else if extension is Some && ascii_folded(extension->0) == "emo"@ {
        EntryKind::EmoPackage
    } else {
        EntryKind::LooseFile
    }
}

/// What something with this extension is.
pub fn kind_by_extension(is_dir: bool, extension: Option<&str>) -> (r: EntryKind)
    ensures
        r == entry_kind(
            is_dir,
            match extension {
                Some(text) => Some(text@),
                None => None,
            },
        ),
        is_dir <==> r == EntryKind::Directory,
        !is_dir && extension is Some && ascii_folded(extension->0@) == "emo"@ <==> r
            == EntryKind::EmoPackage,
{
    if is_dir {
        return EntryKind::Directory;
    }
    match extension {
        Some(text) => if same_text(to_ascii_lower(text).as_str(), "emo") {
            EntryKind::EmoPackage
        } else {
            EntryKind::LooseFile
        },
        None => EntryKind::LooseFile,
    }
}

/// What the user picked with a path.
pub fn kind_of_path(is_dir: bool, path: &str) -> (r: EntryKind)
    ensures
        is_dir ==> r is Directory,
        !is_dir ==> !(r is Directory),
        told(path@) ==> exists|windows: bool|
            r == entry_kind(is_dir, #[trigger] path_extension(path@, windows)),
{
    let found = extension(path);
    match found {
        Some(text) => kind_by_extension(is_dir, Some(text.as_str())),
        None => kind_by_extension(is_dir, None),
    }
}

/// How the list for the importing tool calls a kind.
pub open spec fn kind_letter(kind: EntryKind) -> Seq<char> {
    match kind {
        EntryKind::Directory => "d"@,
        EntryKind::EmoPackage => "p"@,
        EntryKind::LooseFile => "f"@,
    }
}

fn letter_of(kind: EntryKind) -> (r: &'static str)
    ensures
        r@ == kind_letter(kind),
{
    match kind {
        EntryKind::Directory => "d",
        EntryKind::EmoPackage => "p",
        EntryKind::LooseFile => "f",
    }
}

/// Something that the user picked, and how many categories it brings along, once that is
/// known.
#[derive(Debug, Clone, PartialEq, Eq)]
pub struct ImportEntry {
    pub path: String,
    pub kind: EntryKind,
    pub category_count: Option<usize>,
}

impl ImportEntry {
    /// Whether it has to be looked into.
    pub open spec fn is_probed(&self) -> bool {
        self.kind is Directory || self.kind is EmoPackage
    }
}

/// A path and what is there.
#[derive(Debug, Clone, PartialEq, Eq)]
pub struct PickedPath {
    pub path: String,
    pub kind: EntryKind,
}

/// What comes of picking something to import.
#[derive(Debug, Clone, PartialEq, Eq)]
pub enum OpenStep {
    /// Another import is on its way.
    Refused { notice: String },
    /// Each of these is looked into.
    Probe { paths: Vec<String> },
    /// There is nothing to look into.
    Plan,
}

/// The paths that have to be looked into.
pub open spec fn probed_paths(entries: Seq<ImportEntry>) -> Seq<Seq<char>>
    decreases entries.len(),
{
    if entries.len() == 0 {
        Seq::empty()
    } else {
        let before = probed_paths(entries.drop_last());
        if entries.last().is_probed() {
            before.push(entries.last().path@)
        } else {
            before
        }
    }
}

/// Every entry stands for the path at its place, and nothing is known of its categories.
pub open spec fn entered(picked: Seq<PickedPath>, entries: Seq<ImportEntry>) -> bool {
    &&& entries.len() == picked.len()
    &&& forall|i: int|
        0 <= i < picked.len() ==> {
            &&& (#[trigger] entries[i]).path@ == picked[i].path@
            &&& entries[i].kind == picked[i].kind
            &&& entries[i].category_count is None
        }
}

/// The first entry with a path may stand at `at`; there may be none where `at` is their
/// number.
pub open spec fn entry_at(entries: Seq<ImportEntry>, path: Seq<char>, at: int) -> bool {
    &&& 0 <= at <= entries.len()
    &&& forall|i: int| 0 <= i < at ==> compared((#[trigger] entries[i]).path@, path, false)
    &&& at < entries.len() ==> compared(entries[at].path@, path, true)
}

/// The category that an import goes to, as the user typed it.
#[derive(Debug, Clone, PartialEq, Eq)]
pub enum ClassifyTarget {
    Inbox,
    Existing { name: String },
    Fresh { name: String },
}

impl ClassifyTarget {
    /// How the window shows where an import will go.
    pub fn hint_kind(&self) -> (r: i32)
        ensures
            *self is Inbox <==> r == 0,
            *self is Existing <==> r == 1,
            *self is Fresh <==> r == 2,
            r == match self {
                ClassifyTarget::Inbox => CLASSIFY_HINT_INBOX,
                ClassifyTarget::Existing { .. } => CLASSIFY_HINT_EXISTING,
                ClassifyTarget::Fresh { .. } => CLASSIFY_HINT_NEW,
            },
    {
        match self {
            ClassifyTarget::Inbox => CLASSIFY_HINT_INBOX,
            ClassifyTarget::Existing { .. } => CLASSIFY_HINT_EXISTING,
            ClassifyTarget::Fresh { .. } => CLASSIFY_HINT_NEW,
        }
    }
}

/// Where an import goes.
#[derive(Debug, Clone, PartialEq, Eq)]
pub enum GroupMode {
    Inbox,
    Into { name: String },
    Create { name: String },
}

/// Where an import goes, and what the user is told of that.
#[derive(Debug, Clone, PartialEq, Eq)]
pub struct Decision {
    pub mode: GroupMode,
    pub notice: Option<String>,
}

impl Decision {
    /// Nothing was created, so nothing is said.
    pub open spec fn is_inbox(&self) -> bool {
        self.mode is Inbox && self.notice is None
    }

    /// The decision for a category that was typed. One that is created without having been
    /// asked for is named.
    pub open spec fn follows(&self, target: ClassifyTarget) -> bool {
        match target {
            ClassifyTarget::Inbox => self.is_inbox(),
            ClassifyTarget::Existing { name } => {
                &&& self.mode matches GroupMode::Into { name: into } && into@ == name@
                &&& self.notice is None
            },
            ClassifyTarget::Fresh { name } => {
                &&& self.mode matches GroupMode::Create { name: created } && created@ == name@
                &&& if name@ == INBOX_CATEGORY@ {
                    self.notice is None
                } else {
                    self.notice matches Some(notice) && notice@ == "未精确匹配到已有分类，已自动创建「"@
                        + name@ + "」并导入"@
                }
            },
        }
    }
}

/// What the user decides by confirming.
pub fn decide(kind: i32, target: &ClassifyTarget) -> (r: Decision)
    ensures
        if kind == CLASSIFY_CONFIRM_RESOLVE {
            r.follows(*target)
        } else {
            r.is_inbox()
        },
        kind != 0 || *target is Inbox <==> r.mode is Inbox,
        r.mode matches GroupMode::Into { name } ==> (*target matches ClassifyTarget::Existing {
            name: asked,
        } && asked@ == name@),
        r.mode matches GroupMode::Create { name } ==> (*target matches ClassifyTarget::Fresh {
            name: asked,
        } && asked@ == name@),
        r.notice is Some <==> kind == 0 && (*target matches ClassifyTarget::Fresh { name }
            && name@ != "待分类"@),
        r.notice matches Some(notice) ==> (*target matches ClassifyTarget::Fresh { name } && notice@
            == "未精确匹配到已有分类，已自动创建「"@ + name@ + "」并导入"@),
{
    if kind != CLASSIFY_CONFIRM_RESOLVE {
        return Decision { mode: GroupMode::Inbox, notice: None };
    }
    match target {
        ClassifyTarget::Inbox => Decision { mode: GroupMode::Inbox, notice: None },
        ClassifyTarget::Existing { name } => Decision {
            mode: GroupMode::Into { name: name.clone() },
            notice: None,
        },
        ClassifyTarget::Fresh { name } => {
            let notice = if same_text(name.as_str(), INBOX_CATEGORY) {
                None
            } else {
                Some(
                    "未精确匹配到已有分类，已自动创建「".to_owned().concat(name.as_str()).concat(
                        "」并导入",
                    ),
                )
            };
            Decision { mode: GroupMode::Create { name: name.clone() }, notice }
        },
    }
}

/// What comes of an import once everything was looked into.
#[derive(Debug, Clone, Copy, PartialEq, Eq, Structural)]
pub enum PlanStep {
    /// The user decides where the rest goes.
    AskUser,
    /// Every package knows where its assets go.
    ImportSilently,
    Nothing,
}

/// The import that the user is putting together.
pub struct ImportFlow {
    entries: Vec<ImportEntry>,
    pending: usize,
    groups: Vec<Vec<PickedPath>>,
    silent: Vec<String>,
}

impl ImportFlow {
    pub closed spec fn entries(&self) -> Seq<ImportEntry> {
        self.entries@
    }

    /// How many entries are still looked into.
    pub closed spec fn pending(&self) -> int {
        self.pending as int
    }

    /// What the user decides about.
    pub closed spec fn groups(&self) -> Seq<Vec<PickedPath>> {
        self.groups@
    }

    /// The packages that know where their assets go.
    pub closed spec fn silent(&self) -> Seq<String> {
        self.silent@
    }

    pub fn new() -> (r: ImportFlow)
        ensures
            r.entries().len() == 0,
            r.pending() == 0,
            r.groups().len() == 0,
            r.silent().len() == 0,
    {
        ImportFlow {
            entries: Vec::new(),
            pending: 0,
            groups: Vec::new(),
            silent: Vec::new(),
        }
    }

    pub fn list(&self) -> (r: &Vec<ImportEntry>)
        ensures
            r@ == self.entries(),
    {
        &self.entries
    }

    /// Takes what the user picked, unless another import is on its way.
    pub fn open(&mut self, picked: Vec<PickedPath>, importing: bool) -> (r: OpenStep)
        ensures
            final(self).groups() == old(self).groups(),
            final(self).silent() == old(self).silent(),
            if importing {
                &&& r matches OpenStep::Refused { notice } && notice@
                    == "已经在导入素材，请等进度条结束后再操作"@
                &&& final(self).entries() == old(self).entries()
                &&& final(self).pending() == old(self).pending()
            } else {
                let probed = probed_paths(final(self).entries());
                &&& entered(picked@, final(self).entries())
                &&& final(self).entries().len() == picked@.len()
                &&& forall|i: int|
                    0 <= i < picked@.len() ==> (#[trigger] final(self).entries()[i]).path@
                        == picked@[i].path@ && final(self).entries()[i].kind == picked@[i].kind
                        && final(self).entries()[i].category_count is None
                &&& final(self).pending() == probed.len()
                &&& if probed.len() == 0 {
                    r is Plan
                } else {
                    r matches OpenStep::Probe { paths } && texts(paths@) == probed
                }
            },
    {
        if importing {
            return OpenStep::Refused {
                notice: "已经在导入素材，请等进度条结束后再操作".to_owned(),
            };
        }
        let mut entries: Vec<ImportEntry> = Vec::new();
        let mut paths: Vec<String> = Vec::new();
        let mut i: usize = 0;
        assert(texts(paths@) =~= probed_paths(entries@));
        while i < picked.len()
            invariant
                i <= picked@.len(),
                entered(picked@.take(i as int), entries@),
                texts(paths@) == probed_paths(entries@),
            decreases picked@.len() - i,
        {
            let kind = picked[i].kind;
            let ghost known = entries@;
            let ghost found = paths@;
            entries.push(
                ImportEntry { path: picked[i].path.clone(), kind, category_count: None },
            );
            assert(entries@.drop_last() =~= known);
            if kind == EntryKind::Directory || kind == EntryKind::EmoPackage {
                paths.push(picked[i].path.clone());
                assert(texts(paths@) =~= texts(found).push(picked@[i as int].path@));
            }
            proof {
                let now = picked@.take(i + 1);
                assert forall|j: int| 0 <= j < now.len() implies {
                    &&& (#[trigger] entries@[j]).path@ == now[j].path@
                    &&& entries@[j].kind == now[j].kind
                    &&& entries@[j].category_count is None
                } by {
                    if j < i {
                        assert(entries@[j] == known[j]);
                        assert(picked@.take(i as int)[j] == now[j]);
                    }
                }
            }
            i = i + 1;
        }
        assert(picked@.take(i as int) =~= picked@);
        assert(texts(paths@).len() == paths@.len());
        self.entries = entries;
        self.pending = paths.len();
        if paths.len() == 0 {
            OpenStep::Plan
        } else {
            OpenStep::Probe { paths }
        }
    }

    /// Notes how many categories an entry brings along: the first with the path.
    pub fn apply_probe(&mut self, path: &str, count: Option<usize>)
        ensures
            final(self).pending() == old(self).pending(),
            final(self).groups() == old(self).groups(),
            final(self).silent() == old(self).silent(),
            exists|at: int| #[trigger]
                entry_at(old(self).entries(), path@, at) && final(self).entries() == (if at
                    == old(self).entries().len() {
                    old(self).entries()
                } else {
                    old(self).entries().update(
                        at,
                        ImportEntry { category_count: count, ..old(self).entries()[at] },
                    )
                }),
    {
        let mut i: usize = 0;
        while i < self.entries.len() && !same_path(self.entries[i].path.as_str(), path)
            invariant
                i <= self.entries@.len(),
                forall|k: int|
                    0 <= k < i ==> compared((#[trigger] self.entries@[k]).path@, path@, false),
                self.entries@ == old(self).entries(),
                self.pending == old(self).pending(),
                self.groups@ == old(self).groups(),
                self.silent@ == old(self).silent(),
            decreases self.entries@.len() - i,
        {
            i = i + 1;
        }
        assert(entry_at(self.entries@, path@, i as int));
        if i < self.entries.len() {
            let entry = ImportEntry {
                path: self.entries[i].path.clone(),
                kind: self.entries[i].kind,
                category_count: count,
            };
            self.entries.set(i, entry);
        }
        assert(self.entries@ =~= if i == old(self).entries().len() {
            old(self).entries()
        } else {
            old(self).entries().update(
                i as int,
                ImportEntry { category_count: count, ..old(self).entries()[i as int] },
            )
        });
    }

    /// An entry was looked into, with whatever result. Whether it was the last one.
    pub fn probe_done(&mut self) -> (r: bool)
        ensures
            final(self).entries() == old(self).entries(),
            final(self).groups() == old(self).groups(),
            final(self).silent() == old(self).silent(),
            final(self).pending() == if old(self).pending() > 0 {
                old(self).pending() - 1
            } else {
                0
            },
            r == (final(self).pending() == 0),
    {
        self.pending = self.pending.saturating_sub(1);
        self.pending == 0
    }

    /// Takes the plan for what was picked. Where the user has nothing to decide, packages that
    /// know where their assets go are imported at once.
    pub fn finalize(&mut self, groups: Vec<Vec<PickedPath>>, silent: Vec<String>) -> (r: PlanStep)
        ensures
            final(self).entries() == old(self).entries(),
            final(self).pending() == old(self).pending(),
            if groups@.len() == 0 {
                &&& final(self).groups() == old(self).groups()
                &&& final(self).silent() == old(self).silent()
                &&& if silent@.len() == 0 {
                    r is Nothing
                } else {
                    r is ImportSilently
                }
            } else {
                &&& final(self).groups() == groups@
                &&& final(self).silent() == silent@
                &&& r is AskUser
            },
    {
        if groups.len() == 0 {
            if silent.len() == 0 {
                PlanStep::Nothing
            } else {
                PlanStep::ImportSilently
            }
        } else {
            self.groups = groups;
            self.silent = silent;
            PlanStep::AskUser
        }
    }

    /// What the user decides about.
    pub fn pending_groups(&self) -> (r: &Vec<Vec<PickedPath>>)
        ensures
            r@ == self.groups(),
    {
        &self.groups
    }

    /// The packages that know where their assets go.
    pub fn silent_packages(&self) -> (r: &Vec<String>)
        ensures
            r@ == self.silent(),
    {
        &self.silent
    }
}

/// What a looked-into entry said of its categories. A number that does not fit the window's
/// is cut down to it; a negative one says nothing.
pub open spec fn probed_count(line: Seq<char>) -> Option<usize> {
    if begins(line, "PROBE\tcategories="@) {
        match parsed(
            trimmed(line.skip("PROBE\tcategories="@.len() as int)),
            usize::MAX as int,
        ) {
            Some(n) => if (n as usize) as i32 >= 0 {
                Some(((n as usize) as i32) as usize)
            } else {
                None
            },
            None => None,
        }
    } else {
        None
    }
}

/// Reads how many categories an entry brings along.
pub fn read_probe(line: &str) -> (r: Option<usize>)
    ensures
        r == probed_count(line@),
{
    match strip_prefix(line, "PROBE\tcategories=") {
        Some(rest) => match parse_usize(trim(rest)) {
            Some(n) => {
                let shown: i32 = #[verifier::truncate] (n as i32);
                if shown >= 0 {
                    Some(shown as usize)
                } else {
                    None
                }
            },
            None => None,
        },
        None => None,
    }
}

/// A line of the list for the importing tool: a kind, where it goes, and the path.
pub open spec fn list_line(kind: Seq<char>, mode: Seq<char>, path: Seq<char>) -> Seq<char> {
    kind + "\t"@ + mode + "\t"@ + path + "\n"@
}

/// The lines for packages that know where their assets go.
pub open spec fn silent_lines(silent: Seq<Seq<char>>) -> Seq<char>
    decreases silent.len(),
{
    if silent.len() == 0 {
        Seq::empty()
    } else {
        silent_lines(silent.drop_last()) + list_line("p"@, "auto"@, silent.last())
    }
}

/// The lines for a group.
pub open spec fn group_lines(group: Seq<PickedPath>, mode: Seq<char>) -> Seq<char>
    decreases group.len(),
{
    if group.len() == 0 {
        Seq::empty()
    } else {
        group_lines(group.drop_last(), mode) + list_line(
            kind_letter(group.last().kind),
            mode,
            group.last().path@,
        )
    }
}

/// The lines for the groups.
pub open spec fn groups_lines(groups: Seq<Vec<PickedPath>>, mode: Seq<char>) -> Seq<char>
    decreases groups.len(),
{
    if groups.len() == 0 {
        Seq::empty()
    } else {
        groups_lines(groups.drop_last(), mode) + group_lines(groups.last()@, mode)
    }
}

/// How many paths the groups have.
pub open spec fn group_total(groups: Seq<Vec<PickedPath>>) -> nat
    decreases groups.len(),
{
    if groups.len() == 0 {
        0
    } else {
        group_total(groups.drop_last()) + groups.last()@.len()
    }
}

fn push_line(out: &mut Vec<char>, kind: &str, mode: &str, path: &str)
    ensures
        final(out)@ == old(out)@ + list_line(kind@, mode@, path@),
{
    let ghost start = out@;
    push_text(out, kind);
    push_text(out, "\t");
    push_text(out, mode);
    push_text(out, "\t");
    push_text(out, path);
    push_text(out, "\n");
    assert(out@ =~= start + list_line(kind@, mode@, path@));
}

fn push_group(out: &mut Vec<char>, group: &Vec<PickedPath>, mode: &str)
    ensures
        final(out)@ == old(out)@ + group_lines(group@, mode@),
{
    let ghost start = out@;
    let mut i: usize = 0;
    while i < group.len()
        invariant
            i <= group@.len(),
            out@ == start + group_lines(group@.take(i as int), mode@),
        decreases group@.len() - i,
    {
        let ghost next = group@.take(i + 1);
        assert(next.drop_last() =~= group@.take(i as int));
        push_line(out, letter_of(group[i].kind), mode, group[i].path.as_str());
        assert(out@ =~= start + group_lines(next, mode@));
        i = i + 1;
    }
    assert(group@.take(i as int) =~= group@);
}

/// The list for the importing tool: first the packages that know where their assets go, then
/// the groups. How the list writes where a group goes is `mode`.
pub fn import_list(silent: &Vec<String>, groups: &Vec<Vec<PickedPath>>, mode: &str) -> (r: String)
    ensures
        r@ == silent_lines(texts(silent@)) + groups_lines(groups@, mode@),
{
    let mut out: Vec<char> = Vec::new();
    let mut i: usize = 0;
    while i < silent.len()
        invariant
            i <= silent@.len(),
            out@ == silent_lines(texts(silent@).take(i as int)),
        decreases silent@.len() - i,
    {
        let ghost next = texts(silent@).take(i + 1);
        assert(next.drop_last() =~= texts(silent@).take(i as int));
        push_line(&mut out, "p", "auto", silent[i].as_str());
        i = i + 1;
    }
    assert(texts(silent@).take(i as int) =~= texts(silent@));
    let ghost first = out@;
    let mut j: usize = 0;
    assert(out@ =~= first + groups_lines(groups@.take(0), mode@));
    while j < groups.len()
        invariant
            j <= groups@.len(),
            out@ == first + groups_lines(groups@.take(j as int), mode@),
        decreases groups@.len() - j,
    {
        let ghost next = groups@.take(j + 1);
        assert(next.drop_last() =~= groups@.take(j as int));
        push_group(&mut out, &groups[j], mode);
        assert(out@ =~= first + groups_lines(next, mode@));
        j = j + 1;
    }
    assert(groups@.take(j as int) =~= groups@);
    string_of(out)
}

/// How many lines the list for the importing tool has.
pub fn import_total(silent: &Vec<String>, groups: &Vec<Vec<PickedPath>>) -> (r: usize)
    requires
        silent@.len() + group_total(groups@) <= usize::MAX,
    ensures
        r == silent@.len() + group_total(groups@),
{
    let mut total: usize = silent.len();
    let mut i: usize = 0;
    while i < groups.len()
        invariant
            i <= groups@.len(),
            silent@.len() + group_total(groups@) <= usize::MAX,
            total == silent@.len() + group_total(groups@.take(i as int)),
        decreases groups@.len() - i,
    {
        let ghost next = groups@.take(i + 1);
        assert(next.drop_last() =~= groups@.take(i as int));
        proof {
            total_grows(groups@, i + 1);
        }
        total = total + groups[i].len();
        i = i + 1;
    }
    assert(groups@.take(i as int) =~= groups@);
    total
}

proof fn total_grows(groups: Seq<Vec<PickedPath>>, n: int)
    requires
        0 <= n <= groups.len(),
    ensures
        group_total(groups.take(n)) <= group_total(groups),
    decreases groups.len(),
{
    if n == groups.len() {
        assert(groups.take(n) =~= groups);
    } else {
        total_grows(groups.drop_last(), n);
        assert(groups.drop_last().take(n) =~= groups.take(n));
    }
}

/// The arguments of the importing tool.
pub open spec fn import_args(list: Seq<char>, root: Seq<char>, fast: bool) -> Seq<Seq<char>> {
    seq!["--import-paths"@, list, "--library"@, root, "--mode"@, mode_name(fast)]
}

/// The arguments of the importing tool.
pub fn import_arguments(list: &str, root: &str, fast: bool) -> (r: Vec<String>)
    ensures
        texts(r@) == import_args(list@, root@, fast),
        r@.len() == 6,
        r@[0]@ == "--import-paths"@ && r@[1]@ == list@,
        r@[2]@ == "--library"@ && r@[3]@ == root@,
        r@[4]@ == "--mode"@ && r@[5]@ == if fast {
            "fast"@
        } else {
            "background"@
        },
{
    let mut args: Vec<String> = Vec::new();
    args.push("--import-paths".to_owned());
    args.push(list.to_owned());
    args.push("--library".to_owned());
    args.push(root.to_owned());
    args.push("--mode".to_owned());
    args.push(import_mode_arg(fast).to_owned());
    assert(texts(args@) =~= import_args(list@, root@, fast));
    assert(args@.len() == 6);
    args
}

/// What an import is called.
pub fn import_label(total: usize) -> (r: String)
    ensures
        r@ == decimal(total as nat) + " 项素材"@,
{
    let mut out: Vec<char> = Vec::new();
    push_number(&mut out, total as u64);
    push_text(&mut out, " 项素材");
    string_of(out)
}

/// What is said when an import begins.
pub fn start_text(label: &str) -> (r: String)
    ensures
        r@ == "开始导入："@ + label@,
{
    "开始导入：".to_owned().concat(label)
}

/// What is said when the list of an import could not be written.
pub fn list_failure(list: &str, error: &str) -> (r: String)
    ensures
        r@ == "无法写入导入清单 "@ + list@ + ": "@ + error@,
{
    "无法写入导入清单 ".to_owned().concat(list).concat(": ").concat(error)
}

/// How many lines end in a text.
pub open spec fn line_ends(text: Seq<char>) -> nat
    decreases text.len(),
{
    if text.len() == 0 {
        0
    } else {
        line_ends(text.drop_last()) + if text.last() == '\n' {
            1nat
        } else {
            0nat
        }
    }
}

/// The text is part of one line.
pub open spec fn one_line(text: Seq<char>) -> bool {
    forall|i: int| 0 <= i < text.len() ==> #[trigger] text[i] != '\n'
}

proof fn line_ends_add_up(a: Seq<char>, b: Seq<char>)
    ensures
        line_ends(a + b) == line_ends(a) + line_ends(b),
    decreases b.len(),
{
    if b.len() == 0 {
        assert(a + b =~= a);
    } else {
        assert((a + b).drop_last() =~= a + b.drop_last());
        line_ends_add_up(a, b.drop_last());
    }
}

proof fn one_line_has_no_end(text: Seq<char>)
    requires
        one_line(text),
    ensures
        line_ends(text) == 0,
    decreases text.len(),
{
    if text.len() > 0 {
        assert(text.last() == text[text.len() - 1]);
        assert(one_line(text.drop_last()));
        one_line_has_no_end(text.drop_last());
    }
}

proof fn list_line_is_one_line(kind: Seq<char>, mode: Seq<char>, path: Seq<char>)
    requires
        one_line(kind),
        one_line(mode),
        one_line(path),
    ensures
        line_ends(list_line(kind, mode, path)) == 1,
{
    reveal_strlit("\t");
    reveal_strlit("\n");
    let body = kind + "\t"@ + mode + "\t"@ + path;
    assert(one_line(body));
    one_line_has_no_end(body);
    assert((body + "\n"@).drop_last() =~= body);
}

proof fn silent_lines_count(silent: Seq<Seq<char>>)
    requires
        forall|i: int| 0 <= i < silent.len() ==> one_line(#[trigger] silent[i]),
    ensures
        line_ends(silent_lines(silent)) == silent.len(),
    decreases silent.len(),
{
    if silent.len() > 0 {
        reveal_strlit("p");
        reveal_strlit("auto");
        silent_lines_count(silent.drop_last());
        assert(one_line(silent[silent.len() - 1]));
        list_line_is_one_line("p"@, "auto"@, silent.last());
        line_ends_add_up(
            silent_lines(silent.drop_last()),
            list_line("p"@, "auto"@, silent.last()),
        );
    }
}

proof fn group_lines_count(group: Seq<PickedPath>, mode: Seq<char>)
    requires
        one_line(mode),
        forall|i: int| 0 <= i < group.len() ==> one_line((#[trigger] group[i]).path@),
    ensures
        line_ends(group_lines(group, mode)) == group.len(),
    decreases group.len(),
{
    if group.len() > 0 {
        reveal_strlit("d");
        reveal_strlit("p");
        reveal_strlit("f");
        group_lines_count(group.drop_last(), mode);
        let last = group[group.len() - 1];
        list_line_is_one_line(kind_letter(last.kind), mode, last.path@);
        line_ends_add_up(
            group_lines(group.drop_last(), mode),
            list_line(kind_letter(last.kind), mode, last.path@),
        );
    }
}

proof fn groups_lines_count(groups: Seq<Vec<PickedPath>>, mode: Seq<char>)
    requires
        one_line(mode),
        forall|i: int, j: int|
            0 <= i < groups.len() && 0 <= j < groups[i]@.len() ==> one_line(
                (#[trigger] groups[i]@[j]).path@,
            ),
    ensures
        line_ends(groups_lines(groups, mode)) == group_total(groups),
    decreases groups.len(),
{
    if groups.len() > 0 {
        let rest = groups.drop_last();
        assert forall|i: int, j: int| 0 <= i < rest.len()
            && 0 <= j < rest[i]@.len() implies one_line(
            (#[trigger] rest[i]@[j]).path@,
        ) by {
            assert(groups[i]@[j] == rest[i]@[j]);
        }
        groups_lines_count(rest, mode);
        group_lines_count(groups.last()@, mode);
        line_ends_add_up(groups_lines(rest, mode), group_lines(groups.last()@, mode));
    }
}

/// The list for the importing tool has a line for each path, and no other, as long as no path
/// holds a line break.
pub proof fn list_has_a_line_for_each_path(
    silent: Seq<Seq<char>>,
    groups: Seq<Vec<PickedPath>>,
    mode: Seq<char>,
)
    requires
        one_line(mode),
        forall|i: int| 0 <= i < silent.len() ==> one_line(#[trigger] silent[i]),
        forall|i: int, j: int|
            0 <= i < groups.len() && 0 <= j < groups[i]@.len() ==> one_line(
                (#[trigger] groups[i]@[j]).path@,
            ),
    ensures
        line_ends(silent_lines(silent) + groups_lines(groups, mode)) == silent.len() + group_total(
            groups,
        ),
{
    silent_lines_count(silent);
    groups_lines_count(groups, mode);
    line_ends_add_up(silent_lines(silent), groups_lines(groups, mode));
}

/// A category that comes into being without having been asked for is always named to the
/// user.
pub proof fn created_categories_are_named(target: ClassifyTarget, decision: Decision)
    requires
        decision.follows(target),
        decision.mode matches GroupMode::Create { name } && name@ != INBOX_CATEGORY@,
    ensures
        decision.notice is Some,
{
}

/// Directories and packages are looked into, and nothing else, in the order they were picked.
pub proof fn directories_and_packages_are_looked_into(
    entries: Seq<ImportEntry>,
    entry: ImportEntry,
)
    ensures
        probed_paths(Seq::<ImportEntry>::empty()).len() == 0,
        entry.kind == EntryKind::Directory || entry.kind == EntryKind::EmoPackage ==> probed_paths(
            entries.push(entry),
        ) == probed_paths(entries).push(entry.path@),
        entry.kind == EntryKind::LooseFile ==> probed_paths(entries.push(entry)) == probed_paths(
            entries,
        ),
{
    assert(entries.push(entry).drop_last() =~= entries);
}

/// A number of categories that an entry reports is read as it was written, with white space
/// around it too; a line that does not report any says nothing.
pub proof fn reported_categories_are_read_back(
    line: Seq<char>,
    n: nat,
    front: Seq<char>,
    back: Seq<char>,
)
    requires
        n <= i32::MAX,
        forall|k: int| 0 <= k < front.len() ==> whitespace(#[trigger] front[k]),
        forall|k: int| 0 <= k < back.len() ==> whitespace(#[trigger] back[k]),
    ensures
        probed_count("PROBE\tcategories="@ + (front + decimal(n) + back)) == Some(n as usize),
        !begins(line, "PROBE\tcategories="@) ==> probed_count(line) is None,
{
    let prefix = "PROBE\tcategories="@;
    let rest = front + decimal(n) + back;
    decimal_reads_back(n);
    numbers_are_written_digit_by_digit(n, 0);
    assert('0' <= decimal(n)[0] <= '9');
    assert('0' <= decimal(n)[decimal(n).len() - 1] <= '9');
    trimming_leaves_the_core(front, decimal(n), back);
    assert((prefix + rest).take(prefix.len() as int) =~= prefix);
    assert((prefix + rest).skip(prefix.len() as int) =~= rest);
    assert(parsed(decimal(n), usize::MAX as int) == Some(n as int));
}

/// The list for the importing tool: a line for each package that knows where its assets go, then
/// one for each path of each group, each with a letter for its kind, where it goes, and the path.
pub proof fn lists_name_kind_mode_and_path(
    silent: Seq<Seq<char>>,
    package: Seq<char>,
    group: Seq<PickedPath>,
    picked: PickedPath,
    groups: Seq<Vec<PickedPath>>,
    more: Vec<PickedPath>,
    mode: Seq<char>,
)
    ensures
        silent_lines(Seq::<Seq<char>>::empty()).len() == 0,
        silent_lines(silent.push(package)) == silent_lines(silent) + ("p"@ + "\t"@ + "auto"@ + "\t"@
            + package + "\n"@),
        group_lines(Seq::<PickedPath>::empty(), mode).len() == 0,
        picked.kind == EntryKind::Directory
            ==> group_lines(group.push(picked), mode) == group_lines(
            group,
            mode,
        ) + ("d"@ + "\t"@ + mode + "\t"@ + picked.path@ + "\n"@),
        picked.kind == EntryKind::EmoPackage ==> group_lines(group.push(picked), mode)
            == group_lines(group, mode) + ("p"@ + "\t"@ + mode + "\t"@ + picked.path@ + "\n"@),
        picked.kind == EntryKind::LooseFile
            ==> group_lines(group.push(picked), mode) == group_lines(
            group,
            mode,
        ) + ("f"@ + "\t"@ + mode + "\t"@ + picked.path@ + "\n"@),
        groups_lines(Seq::<Vec<PickedPath>>::empty(), mode).len() == 0,
        groups_lines(groups.push(more), mode) == groups_lines(groups, mode) + group_lines(
            more@,
            mode,
        ),
        group_total(Seq::<Vec<PickedPath>>::empty()) == 0,
        group_total(groups.push(more)) == group_total(groups) + more@.len(),
{
    assert(silent.push(package).drop_last() =~= silent);
    assert(group.push(picked).drop_last() =~= group);
    assert(groups.push(more).drop_last() =~= groups);
}

/// The first entry whose path is taken for the given one is where the count goes.
pub proof fn counts_go_to_the_first_such_entry(entries: Seq<ImportEntry>, path: Seq<char>, at: int)
    requires
        entry_at(entries, path, at),
    ensures
        0 <= at <= entries.len(),
        forall|i: int|
            0 <= i < at ==> (#[trigger] entries[i]).path@ != path,
        at < entries.len() ==> compared(entries[at].path@, path, true),
{
}

/// What was picked is told by what it is: a directory, a package by the extension `emo` in any
/// case, else a file.
pub proof fn packages_are_told_by_their_extension(ext: Option<Seq<char>>)
    ensures
        entry_kind(true, ext) == EntryKind::Directory,
        ext is Some && ascii_folded(ext->0) == "emo"@ ==> entry_kind(false, ext)
            == EntryKind::EmoPackage,
        ext is None || ascii_folded(ext->0) != "emo"@ ==> entry_kind(false, ext)
            == EntryKind::LooseFile,
{
}

} // verus!
