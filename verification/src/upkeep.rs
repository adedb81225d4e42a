//! Looking after the library: taking in one that an older version left behind, clearing it,
//! and writing it out.

use vstd::prelude::*;

use crate::commands::TwoStep;
use crate::digits::{decimal, push_number, push_text};
use crate::fields::{join, joined, texts};
use crate::paths::same_path;
#[allow(unused_imports)]
use crate::paths::{compared, text_of};
use crate::text::{begins, starts_with, string_of, trim, trimmed};
use crate::ui_enums::TargetNoticeTone;

verus! {

/// The directories in which a library of an older version may lie; `same` says whether the
/// two are one.
pub open spec fn candidates(
    exe_dir: Option<Seq<char>>,
    default_install: Option<Seq<char>>,
    same: bool,
) -> Seq<Seq<char>> {
    let first = match exe_dir {
        Some(dir) => seq![dir],
        None => Seq::empty(),
    };
    match default_install {
        Some(dir) => if exe_dir is Some && same {
            first
        } else {
            first.push(dir)
        },
        None => first,
    }
}

/// `same` may be the answer to whether two paths are the same, where both are there.
pub open spec fn both_compared(a: Option<Seq<char>>, b: Option<Seq<char>>, same: bool) -> bool {
    match (a, b) {
        (Some(a), Some(b)) => compared(a, b, same),
        _ => true,
    }
}

pub open spec fn optional_text(text: Option<&str>) -> Option<Seq<char>> {
    match text {
        Some(text) => Some(text@),
        None => None,
    }
}

/// The directories in which a library of an older version may lie: that of the application,
/// and the one where it is installed if it is another one.
pub fn candidate_dirs(exe_dir: Option<&str>, default_install: Option<&str>) -> (r: Vec<String>)
    ensures
        exists|same: bool|
            both_compared(optional_text(exe_dir), optional_text(default_install), same) && texts(r@)
                == #[trigger] candidates(
                optional_text(exe_dir),
                optional_text(default_install),
                same,
            ),
{
    let mut dirs: Vec<String> = Vec::new();
    if let Some(dir) = exe_dir {
        dirs.push(dir.to_owned());
    }
    let known = match (exe_dir, default_install) {
        (Some(exe), Some(dir)) => same_path(exe, dir),
        _ => false,
    };
    if let Some(dir) = default_install {
        if !known {
            dirs.push(dir.to_owned());
        }
    }
    assert(texts(dirs@) =~= candidates(
        optional_text(exe_dir),
        optional_text(default_install),
        known,
    ));
    dirs
}

/// A library that an older version left behind.
#[derive(Debug, Clone, PartialEq, Eq)]
pub struct LegacyLibrary {
    pub source: String,
    /// The directory that it lies in.
    pub parent: Option<String>,
    pub file_count: usize,
    /// It was moved aside already.
    pub is_backup: bool,
}

/// What the settings say of an older library.
#[derive(Debug, Clone, PartialEq, Eq)]
pub enum MigrationEntry {
    /// It can be taken in.
    Available { detail: String },
    /// It was taken in, and its files are kept at `backup`.
    Done { backup: String, detail: String },
    Hidden,
}

impl LegacyLibrary {
    /// Where the user finds it, if it does not lie beside the application; `beside` says
    /// whether it does.
    pub open spec fn whereabouts(&self, exe_dir: Option<Seq<char>>, beside: bool) -> Seq<char> {
        match (exe_dir, self.parent) {
            (Some(_), Some(parent)) => if !beside {
                "（位于 "@ + parent@ + "）"@
            } else {
                Seq::empty()
            },
            _ => Seq::empty(),
        }
    }

    /// What the settings say of it. `megabytes` is its size.
    pub open spec fn detail(
        &self,
        exe_dir: Option<Seq<char>>,
        beside: bool,
        megabytes: Seq<char>,
    ) -> Seq<char> {
        "检测到旧版素材库"@ + self.whereabouts(exe_dir, beside) + "："@ + decimal(self.file_count as nat)
            + " 个文件（"@ + megabytes + " MB）。迁移自动去重合并，旧目录改名留档。"@
    }
}

/// What the settings say of an older library.
pub fn migration_entry(
    legacy: Option<&LegacyLibrary>,
    completed_backup: Option<&str>,
    exe_dir: Option<&str>,
    megabytes: &str,
) -> (r: MigrationEntry)
    ensures
        match legacy {
            Some(found) => r matches MigrationEntry::Available { detail } && exists|beside: bool|
                both_compared(optional_text(exe_dir), text_of(found.parent), beside) && detail@
                    == #[trigger] found.detail(optional_text(exe_dir), beside, megabytes@),
            None => match completed_backup {
                Some(path) => r matches MigrationEntry::Done { backup, detail } && backup@ == path@
                    && detail@ == "旧素材已并入统一库。留档目录："@ + path@ + "（确认无误后可手动删除）。"@,
                None => r is Hidden,
            },
        },
{
    match legacy {
        Some(found) => {
            let mut out: Vec<char> = Vec::new();
            push_text(&mut out, "检测到旧版素材库");
            let beside = match (exe_dir, &found.parent) {
                (Some(dir), Some(parent)) => same_path(dir, parent.as_str()),
                _ => true,
            };
            if let Some(parent) = &found.parent {
                if !beside {
                    push_text(&mut out, "（位于 ");
                    push_text(&mut out, parent.as_str());
                    push_text(&mut out, "）");
                }
            }
            push_text(&mut out, "：");
            push_number(&mut out, found.file_count as u64);
            push_text(&mut out, " 个文件（");
            push_text(&mut out, megabytes);
            push_text(&mut out, " MB）。迁移自动去重合并，旧目录改名留档。");
            assert(out@ =~= found.detail(optional_text(exe_dir), beside, megabytes@));
            MigrationEntry::Available { detail: string_of(out) }
        },
        None => match completed_backup {
            Some(path) => MigrationEntry::Done {
                backup: path.to_owned(),
                detail: "旧素材已并入统一库。留档目录：".to_owned().concat(path).concat(
                    "（确认无误后可手动删除）。",
                ),
            },
            None => MigrationEntry::Hidden,
        },
    }
}

/// What comes of taking in an older library.
#[derive(Debug, Clone, Copy, PartialEq, Eq, Structural)]
pub enum MigrationStage {
    /// Its directory is moved aside.
    Renaming,
    /// The list of its files is written.
    Listing,
    /// Its files come in.
    Importing,
    /// It was taken in.
    Done,
    /// It was not, and lies where it was before.
    Undone,
}

/// An older library that is being taken in.
pub struct Migration {
    moved: bool,
    stage: MigrationStage,
}

/// Whether an older library can be taken in.
pub enum MigrationStart {
    Refused { notice: String },
    /// There is none any more.
    Hidden,
    Begin { migration: Migration },
}

impl Migration {
    /// The directory of the older library was moved aside by this migration, and is there.
    pub closed spec fn is_moved(&self) -> bool {
        self.moved
    }

    pub closed spec fn spec_stage(&self) -> MigrationStage {
        self.stage
    }

    /// A migration that came to nothing has put everything back.
    pub closed spec fn wf(&self) -> bool {
        &&& self.stage == MigrationStage::Renaming ==> !self.moved
        &&& self.stage == MigrationStage::Undone ==> !self.moved
    }

    pub fn stage(&self) -> (r: MigrationStage)
        ensures
            r == self.spec_stage(),
    {
        self.stage
    }

    /// Begins to take in an older library. One that was moved aside already is not moved
    /// again.
    pub fn start(importing: bool, legacy: Option<&LegacyLibrary>) -> (r: MigrationStart)
        ensures
            if importing {
                r matches MigrationStart::Refused { notice } && notice@ == "有导入任务进行中，请稍后再迁移"@
            } else {
                match legacy {
                    Some(found) => if found.file_count == 0 {
                        r is Hidden
                    } else {
                        r matches MigrationStart::Begin { migration } && migration.wf()
                            && !migration.is_moved() && migration.spec_stage() == (
                        if found.is_backup {
                            MigrationStage::Listing
                        } else {
                            MigrationStage::Renaming
                        })
                    },
                    None => r is Hidden,
                }
            },
    {
        if importing {
            return MigrationStart::Refused { notice: "有导入任务进行中，请稍后再迁移".to_owned() };
        }
        match legacy {
            Some(found) => {
                if found.file_count == 0 {
                    return MigrationStart::Hidden;
                }
                let stage = if found.is_backup {
                    MigrationStage::Listing
                } else {
                    MigrationStage::Renaming
                };
                MigrationStart::Begin { migration: Migration { moved: false, stage } }
            },
            None => MigrationStart::Hidden,
        }
    }

    /// Its directory is moved aside.
    pub fn renamed(&mut self)
        requires
            old(self).wf(),
            old(self).spec_stage() is Renaming,
        ensures
            final(self).wf(),
            final(self).is_moved(),
            final(self).spec_stage() is Listing,
    {
        self.moved = true;
        self.stage = MigrationStage::Listing;
    }

    /// Its directory could not be moved aside.
    pub fn rename_failed(&mut self, error: &str) -> (r: String)
        requires
            old(self).wf(),
            old(self).spec_stage() is Renaming,
        ensures
            final(self).wf(),
            final(self).spec_stage() is Undone,
            r@ == "旧库目录无法改名（请关闭旧版素材管理器后重试）: "@ + error@,
    {
        self.stage = MigrationStage::Undone;
        "旧库目录无法改名（请关闭旧版素材管理器后重试）: ".to_owned().concat(error)
    }

    /// The list of its files is written.
    pub fn listed(&mut self)
        requires
            old(self).wf(),
            old(self).spec_stage() is Listing,
        ensures
            final(self).wf(),
            final(self).is_moved() == old(self).is_moved(),
            final(self).spec_stage() is Importing,
    {
        self.stage = MigrationStage::Importing;
    }

    /// The list of its files could not be written. Whether its directory is moved back, and
    /// what the user is told.
    pub fn list_failed(&mut self, error: &str) -> (r: (bool, String))
        requires
            old(self).wf(),
            old(self).spec_stage() is Listing,
        ensures
            final(self).wf(),
            final(self).spec_stage() is Undone,
            r.0 == old(self).is_moved(),
            r.1@ == "无法生成迁移清单: "@ + error@,
    {
        let back = self.moved;
        self.moved = false;
        self.stage = MigrationStage::Undone;
        (back, "无法生成迁移清单: ".to_owned().concat(error))
    }

    /// Its files have come in, or have not. Whether its directory is moved back; what the
    /// user is told of one that was taken in.
    pub fn imported(&mut self, success: bool, backup_name: &str) -> (r: (bool, Option<String>))
        requires
            old(self).wf(),
            old(self).spec_stage() is Importing,
        ensures
            final(self).wf(),
            if success {
                &&& final(self).spec_stage() is Done
                &&& final(self).is_moved() == old(self).is_moved()
                &&& !r.0
                &&& r.1 matches Some(notice) && notice@ == "旧版素材已并入统一库；旧目录留档为「"@ + backup_name@
                    + "」，确认无误后可手动删除"@
            } else {
                &&& final(self).spec_stage() is Undone
                &&& r.0 == old(self).is_moved()
                &&& r.1 is None
            },
    {
        if success {
            self.stage = MigrationStage::Done;
            (
                false,
                Some(
                    "旧版素材已并入统一库；旧目录留档为「".to_owned().concat(backup_name).concat(
                        "」，确认无误后可手动删除",
                    ),
                ),
            )
        } else {
            let back = self.moved;
            self.moved = false;
            self.stage = MigrationStage::Undone;
            (back, None)
        }
    }
}

/// What the import of an older library is called.
pub fn migration_label(file_count: usize) -> (r: String)
    ensures
        r@ == "旧版素材迁移（"@ + decimal(file_count as nat) + " 项）"@,
{
    let mut out: Vec<char> = Vec::new();
    push_text(&mut out, "旧版素材迁移（");
    push_number(&mut out, file_count as u64);
    push_text(&mut out, " 项）");
    assert(out@ =~= "旧版素材迁移（"@ + decimal(file_count as nat) + " 项）"@);
    string_of(out)
}

/// A migration that came to nothing leaves the older library where it was.
pub proof fn failed_migrations_are_undone(migration: Migration)
    requires
        migration.wf(),
        migration.spec_stage() is Undone,
    ensures
        !migration.is_moved(),
{
}

/// What clearing the library does.
#[derive(Debug, Clone, PartialEq, Eq)]
pub enum ClearStep {
    /// The user is told why it is not cleared.
    Told { notice: String },
    /// The library is cleared.
    Clear,
}

/// Clears the library when it is asked for twice, unless an import is on its way or there is
/// nothing to clear.
pub fn plan_clear(importing: bool, confirm: &mut TwoStep, there: bool) -> (r: ClearStep)
    ensures
        if importing {
            &&& *final(confirm) == *old(confirm)
            &&& r matches ClearStep::Told { notice } && notice@
                == "正在导入素材/生成缩略图，请等进度条结束后再清空"@
        } else {
            &&& final(confirm).spec_armed() == !old(confirm).spec_armed()
            &&& if !old(confirm).spec_armed() {
                r matches ClearStep::Told { notice } && notice@
                    == "再次点击确认删除：所有素材、缩略图和索引都会被删除"@
            } else if !there {
                r matches ClearStep::Told { notice } && notice@ == "当前没有真实库可清理"@
            } else {
                r is Clear
            }
        },
{
    if importing {
        return ClearStep::Told {
            notice: "正在导入素材/生成缩略图，请等进度条结束后再清空".to_owned(),
        };
    }
    if !confirm.press() {
        ClearStep::Told { notice: "再次点击确认删除：所有素材、缩略图和索引都会被删除".to_owned() }
    } else if !there {
        ClearStep::Told { notice: "当前没有真实库可清理".to_owned() }
    } else {
        ClearStep::Clear
    }
}

/// The index is among the items that would not go.
pub open spec fn index_remains(items: Seq<Seq<char>>) -> bool {
    exists|i: int| 0 <= i < items.len() && begins(#[trigger] items[i], "meta.db"@)
}

/// What is said of a library that was cleared, but for the items that would not go.
pub open spec fn cleared_words(root: Seq<char>, items: Seq<Seq<char>>) -> Seq<char> {
    if items.len() == 0 {
        "素材库已清空（"@ + root + "），点「导入素材…」重新开始"@
    } else if index_remains(items) {
        "素材文件已清除，但索引 meta.db 被占用未能删除（"@ + joined(items, "；"@)
            + "）。\n 建议退出程序后删除 "@ + root + " 下的 meta.db，下次导入才不会重新出现旧素材"@
    } else {
        "大部分内容已清除，以下项目暂被占用（通常是系统索引或杀毒软件扫描），稍后可重试："@ + joined(items, "；"@)
            + "。素材库已重置为空，可直接重新导入"@
    }
}

/// An item that would not go, and why.
pub fn failed_item(name: &str, error: &str) -> (r: String)
    ensures
        r@ == name@ + "（"@ + error@ + "）"@,
{
    name.to_owned().concat("（").concat(error).concat("）")
}

/// What is said of a library that was cleared, and how it is meant.
pub fn cleared_notice(root: &str, items: &Vec<String>) -> (r: (TargetNoticeTone, String))
    ensures
        r.1@ == cleared_words(root@, texts(items@)),
        r.0 == TargetNoticeTone::Success <==> items@.len() == 0,
        r.0 == TargetNoticeTone::Error <==> exists|i: int|
            0 <= i < items@.len() && begins((#[trigger] items@[i])@, "meta.db"@),
        r.0 == if items@.len() == 0 {
            TargetNoticeTone::Success
        } else if index_remains(texts(items@)) {
            TargetNoticeTone::Error
        } else {
            TargetNoticeTone::Warning
        },
{
    proof {
        let all = texts(items@);
        if index_remains(all) {
            let k = choose|k: int| 0 <= k < all.len() && begins(#[trigger] all[k], "meta.db"@);
            assert(begins(items@[k]@, "meta.db"@));
        }
        assert forall|i: int|
            0 <= i < items@.len() && begins(
                (#[trigger] items@[i])@,
                "meta.db"@,
            ) implies index_remains(all) by {
            assert(begins(all[i], "meta.db"@));
        }
    }
    if items.len() == 0 {
        let text = "素材库已清空（".to_owned().concat(root).concat("），点「导入素材…」重新开始");
        return (TargetNoticeTone::Success, text);
    }
    let mut remains = false;
    let mut i: usize = 0;
    while i < items.len()
        invariant
            i <= items@.len(),
            remains == index_remains(texts(items@).take(i as int)),
        decreases items@.len() - i,
    {
        let found = starts_with(items[i].as_str(), "meta.db");
        proof {
            let before = texts(items@).take(i as int);
            let next = texts(items@).take(i + 1);
            assert(next[i as int] == items@[i as int]@);
            if index_remains(before) {
                let k = choose|k: int| 0 <= k < before.len() && begins(#[trigger] before[k], "meta.db"@);
                assert(begins(next[k], "meta.db"@));
            }
            if index_remains(next) && !found {
                let k = choose|k: int| 0 <= k < next.len() && begins(#[trigger] next[k], "meta.db"@);
                assert(begins(before[k], "meta.db"@));
            }
        }
        remains = remains || found;
        i = i + 1;
    }
    assert(texts(items@).take(i as int) =~= texts(items@));
    let list = join(items, "；");
    if remains {
        let text = "素材文件已清除，但索引 meta.db 被占用未能删除（".to_owned().concat(list.as_str()).concat(
            "）。\n 建议退出程序后删除 ",
        ).concat(root).concat(" 下的 meta.db，下次导入才不会重新出现旧素材");
        (TargetNoticeTone::Error, text)
    } else {
        let text =
            "大部分内容已清除，以下项目暂被占用（通常是系统索引或杀毒软件扫描），稍后可重试：".to_owned().concat(
            list.as_str(),
        ).concat("。素材库已重置为空，可直接重新导入");
        (TargetNoticeTone::Warning, text)
    }
}

/// Whether a library can be written out.
#[derive(Debug, Clone, PartialEq, Eq)]
pub enum ExportStep {
    /// There is nothing to write out.
    NoLibrary { notice: String },
    /// The user gave no place for it.
    Cancelled,
    /// The tool for it is missing.
    NoTool { notice: String },
    /// The tool runs with these arguments, and the user is told.
    Run { args: Vec<String>, notice: String },
}

/// Decides whether a library is written out: there has to be one, a place for it, and the
/// tool.
pub fn plan_export(
    root: &str,
    has_index: bool,
    place: Option<&str>,
    tool: &str,
    tool_found: bool,
) -> (r: ExportStep)
    ensures
        if !has_index {
            r matches ExportStep::NoLibrary { notice } && notice@ == "当前没有真实库可导出"@
        } else {
            match place {
                None => r is Cancelled,
                Some(path) => if !tool_found {
                    r matches ExportStep::NoTool { notice } && notice@ == "未找到导出工具 "@ + tool@
                        + "，请确认与主程序同目录"@
                } else {
                    r matches ExportStep::Run { args, notice } && texts(args@) == seq![
                        "export"@,
                        root@,
                        path@,
                    ] && notice@ == "开始导出 .emo："@ + path@
                },
            }
        },
{
    if !has_index {
        return ExportStep::NoLibrary { notice: "当前没有真实库可导出".to_owned() };
    }
    match place {
        None => ExportStep::Cancelled,
        Some(path) => if !tool_found {
            ExportStep::NoTool {
                notice: "未找到导出工具 ".to_owned().concat(tool).concat("，请确认与主程序同目录"),
            }
        } else {
            ExportStep::Run {
                args: export_arguments(root, path),
                notice: "开始导出 .emo：".to_owned().concat(path),
            }
        },
    }
}

/// The arguments of the tool that writes a library out.
pub fn export_arguments(root: &str, path: &str) -> (r: Vec<String>)
    ensures
        texts(r@) == seq!["export"@, root@, path@],
{
    let mut args: Vec<String> = Vec::new();
    args.push("export".to_owned());
    args.push(root.to_owned());
    args.push(path.to_owned());
    assert(texts(args@) =~= seq!["export"@, root@, path@]);
    args
}

/// What is said of a library that was written out, or was not.
pub open spec fn export_words(success: bool, path: Seq<char>, message: Seq<char>) -> Seq<char> {
    if success {
        "导出完成："@ + path
    } else if trimmed(message).len() == 0 {
        "导出失败"@
    } else {
        "导出失败："@ + trimmed(message)
    }
}

/// What is said of a library that was written out, or was not.
pub fn export_text(success: bool, path: &str, message: &str) -> (r: String)
    ensures
        r@ == export_words(success, path@, message@),
        success ==> r@ == "导出完成："@ + path@,
        !success && trimmed(message@).len() == 0 ==> r@ == "导出失败"@,
        !success && trimmed(message@).len() > 0 ==> r@ == "导出失败："@ + trimmed(message@),
{
    let said = trim(message);
    if success {
        "导出完成：".to_owned().concat(path)
    } else if said.unicode_len() == 0 {
        "导出失败".to_owned()
    } else {
        "导出失败：".to_owned().concat(said)
    }
}

/// What is said of work that goes on: what it is, and how far it has got.
pub fn progress_text(what: &str, done: u32, total: u32) -> (r: String)
    ensures
        r@ == what@ + " "@ + decimal(done as nat) + "/"@ + decimal(total as nat),
{
    let mut out: Vec<char> = Vec::new();
    push_text(&mut out, what);
    push_text(&mut out, " ");
    push_number(&mut out, done as u64);
    push_text(&mut out, "/");
    push_number(&mut out, total as u64);
    assert(out@ =~= what@ + " "@ + decimal(done as nat) + "/"@ + decimal(total as nat));
    string_of(out)
}

/// An older library is looked for beside the application first, then where it is installed,
/// and in one place only where the two are the same.
pub proof fn older_libraries_are_looked_for_in_two_places(
    exe_dir: Seq<char>,
    install: Seq<char>,
    same: bool,
)
    ensures
        candidates(Some(exe_dir), Some(install), false) == seq![exe_dir, install],
        candidates(Some(exe_dir), Some(install), true) == seq![exe_dir],
        candidates(Some(exe_dir), None, same) == seq![exe_dir],
        candidates(None, Some(install), same) == seq![install],
        candidates(None, None, same).len() == 0,
        both_compared(Some(exe_dir), Some(install), same) <==> compared(exe_dir, install, same),
{
    assert(seq![exe_dir].push(install) =~= seq![exe_dir, install]);
    assert(Seq::<Seq<char>>::empty().push(install) =~= seq![install]);
}

/// What the settings say of an older library: how many files it has and how large it is, and
/// where it lies where that is not beside the application.
pub proof fn older_libraries_are_described(
    found: LegacyLibrary,
    exe_dir: Option<Seq<char>>,
    beside: bool,
    megabytes: Seq<char>,
)
    ensures
        found.detail(exe_dir, beside, megabytes) == "检测到旧版素材库"@ + found.whereabouts(
            exe_dir,
            beside,
        ) + "："@ + decimal(found.file_count as nat) + " 个文件（"@ + megabytes
            + " MB）。迁移自动去重合并，旧目录改名留档。"@,
        beside || exe_dir is None || found.parent is None ==> found.whereabouts(
            exe_dir,
            beside,
        ).len() == 0,
        !beside && exe_dir is Some && found.parent is Some ==> found.whereabouts(exe_dir, beside)
            == "（位于 "@ + found.parent->0@ + "）"@,
{
}

/// What is said of a library that was cleared: all is gone, or what remains, with more urgency
/// where that is the index.
pub proof fn what_remains_is_told(root: Seq<char>, items: Seq<Seq<char>>)
    ensures
        items.len() == 0 ==> cleared_words(root, items) == "素材库已清空（"@ + root
            + "），点「导入素材…」重新开始"@,
        items.len() > 0 && (exists|i: int|
            0 <= i < items.len() && begins(#[trigger] items[i], "meta.db"@)) ==> cleared_words(
            root,
            items,
        ) == "素材文件已清除，但索引 meta.db 被占用未能删除（"@ + joined(items, "；"@)
            + "）。\n 建议退出程序后删除 "@ + root + " 下的 meta.db，下次导入才不会重新出现旧素材"@,
        items.len() > 0 && !(exists|i: int|
            0 <= i < items.len() && begins(#[trigger] items[i], "meta.db"@)) ==> cleared_words(
            root,
            items,
        ) == "大部分内容已清除，以下项目暂被占用（通常是系统索引或杀毒软件扫描），稍后可重试："@ + joined(items, "；"@)
            + "。素材库已重置为空，可直接重新导入"@,
{
}

/// A text that is there is that text, and one that is not is none.
pub proof fn optional_texts_are_their_texts(text: &str)
    ensures
        optional_text(Some(text)) == Some(text@),
        optional_text(None) is None,
{
}

} // verus!
