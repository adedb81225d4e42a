//! Tools in the background: their lines, imports, and updates.

use asset_shelf::fields::{join, split_on, words_of};
use asset_shelf::intake::{
    decide, import_arguments, import_label, import_list, import_total, kind_of_path,
    list_failure, read_probe, start_text, ClassifyTarget, EntryKind, GroupMode, ImportFlow, OpenStep, PickedPath, PlanStep,
};
use asset_shelf::logging::Level;
use asset_shelf::report::{
    failure_text, import_mode_arg, read_done, summarize, tone_of, DoneStats, ImportJob,
    ImportReport, ImportStep, JobStage, RESULT_ROWS_MAX,
};
use asset_shelf::task::{read_line, start_failure, ChildTask, TaskEnd, TaskLine};
use asset_shelf::ui_enums::{
    TargetNoticeTone, CLASSIFY_CONFIRM_INBOX, CLASSIFY_CONFIRM_RESOLVE, CLASSIFY_HINT_EXISTING,
    CLASSIFY_HINT_INBOX, CLASSIFY_HINT_NEW, IMPORT_RESULT_EXACT, IMPORT_RESULT_FAILED,
    IMPORT_RESULT_SIMILAR,
};
use asset_shelf::update::{
    check_is_due, choice_text, download_text, end_check, install_dir, launch_failure,
    plan_install, rank_by_probe, shows_progress, InstallStart, Source, StopReason, UpdateEnd, UpdateRun,
    UpdateStage,
};

type Plain = ChildTask<fn(u32, u32), fn(String), fn(String), fn(bool, String)>;

fn strings(values: &[&str]) -> Vec<String> {
    values.iter().map(|value| value.to_string()).collect()
}

#[test]
fn lines_are_taken_apart_and_put_together() {
    assert_eq!(split_on("a\tb\tc\td\te", '\t', 4), strings(&["a", "b", "c", "d\te"]));
    assert_eq!(split_on("", '\t', 4), strings(&[""]));
    assert_eq!(split_on("a\t", '\t', 4), strings(&["a", ""]));
    assert_eq!(words_of("  a\u{3000}b \n c "), strings(&["a", "b", "c"]));
    assert_eq!(words_of("   "), Vec::<String>::new());
    assert_eq!(join(&strings(&["a", "b", "c"]), ", "), "a, b, c");
    assert_eq!(join(&vec![], ", "), "");
}

#[test]
fn tools_report_line_by_line() {
    assert_eq!(read_line("PROGRESS\t3\t10"), TaskLine::Progress { done: 3, total: 10 });
    assert_eq!(read_line("PROGRESS\t3\t10\tmore"), TaskLine::Progress { done: 3, total: 10 });
    assert_eq!(read_line("PROGRESS\tx\t10"), TaskLine::Ignored);
    assert_eq!(read_line("PROGRESS\t3"), TaskLine::Ignored);
    assert_eq!(read_line("PROGRESS\t4294967296\t1"), TaskLine::Ignored);
    assert_eq!(
        read_line("NOTICE\t  2 failed "),
        TaskLine::Notice { text: "2 failed".to_string() }
    );
    assert_eq!(read_line("NOTICE\t  "), TaskLine::Ignored);
    assert_eq!(read_line("done: x"), TaskLine::Other { line: "done: x".to_string() });
    assert_eq!(read_line("PROGRESS"), TaskLine::Other { line: "PROGRESS".to_string() });
}

#[test]
fn tools_are_put_together() {
    let task = Plain::new("tool.exe".to_string(), strings(&["--a"]))
        .with_env("K", "V")
        .with_log(Some("/logs"), Level::Debug)
        .with_log(None, Level::Trace)
        .with_progress(|_, _| {})
        .with_notice(|_| {})
        .with_line(|_| {})
        .with_finished(|_, _| {});
    assert_eq!(task.exe, "tool.exe");
    assert_eq!(task.args, strings(&["--a"]));
    assert!(task.hide_window);
    let pairs: Vec<(&str, &str)> =
        task.envs.iter().map(|(k, v)| (k.as_str(), v.as_str())).collect();
    assert_eq!(pairs, vec![("K", "V"), ("DSH_LOG_DIR", "/logs"), ("DSH_LOG_LEVEL", "debug")]);
    assert!(task.on_progress.is_some() && task.on_notice.is_some());
    assert!(task.on_line.is_some() && task.on_finished.is_some());
    assert!(Plain::new("t".to_string(), vec![]).on_finished.is_none());
}

#[test]
fn ends_of_tools_are_told() {
    assert_eq!(start_failure("t", "gone"), "无法启动 t: gone");
    let end = TaskEnd::of(Some((true, Some(0))));
    assert_eq!((end.success, end.message("t", "noise")), (true, String::new()));
    let end = TaskEnd::of(Some((false, Some(3))));
    assert_eq!(end.message("t", "  "), "t 执行失败（exit=3）");
    assert_eq!(end.message("t", " bad \n"), "t 执行失败（exit=3）：bad");
    assert_eq!(TaskEnd::of(None).exit_code, -1);
    assert_eq!(TaskEnd::of(Some((false, None))).message("t", ""), "t 执行失败（exit=-1）");
}

#[test]
fn counts_of_an_import_are_read() {
    let stats = read_done(" imported=3 skipped=2 similar=1 failed=0 imported=x took=9");
    assert_eq!(stats, DoneStats { imported: 3, skipped: 2, similar: 1, failed: 0 });
    assert_eq!(read_done("imported=1 imported=2").imported, 2);
}

#[test]
fn report_holds_rows_and_counts() {
    let mut report = ImportReport::new();
    report.read("RESULTITEM\tsimilar\t7\ta.png\tb.png");
    report.read("RESULTITEM\tfailed\t\tc.png\tno\tluck");
    report.read("RESULTITEM\texact\t-2\td.png");
    report.read("RESULTITEM\texact\t0\t\tx");
    report.read("imported: a");
    report.read("done: imported=1 failed=1");
    let rows: Vec<(i32, &str, &str, i32)> = report
        .rows
        .iter()
        .map(|row| (row.kind, row.source.as_str(), row.existing.as_str(), row.distance))
        .collect();
    assert_eq!(
        rows,
        vec![
            (IMPORT_RESULT_SIMILAR, "a.png", "b.png", 7),
            (IMPORT_RESULT_FAILED, "c.png", "no\tluck", 0),
            (IMPORT_RESULT_EXACT, "d.png", "", -2),
        ]
    );
    assert_eq!(
        report.stats,
        Some(DoneStats { imported: 1, skipped: 0, similar: 0, failed: 1 })
    );
    for i in 0..1000 {
        report.read(&format!("RESULTITEM\texact\t0\tf{i}\t"));
    }
    assert_eq!(report.rows.len(), RESULT_ROWS_MAX);
}

#[test]
fn imports_are_summed_up() {
    let stats = |imported, skipped, similar, failed| {
        Some(DoneStats { imported, skipped, similar, failed })
    };
    assert_eq!(summarize(None), "导入完成，正在后台生成缩略图...");
    assert_eq!(summarize(stats(0, 4, 0, 0)), "导入完成：4 个素材已在库中，未新增");
    assert_eq!(
        summarize(stats(0, 4, 2, 0)),
        "导入完成：4 个素材已在库中 · 相似素材 2 个已导入，见明细"
    );
    assert_eq!(summarize(stats(3, 0, 0, 0)), "导入完成：新增 3");
    assert_eq!(summarize(stats(3, 1, 2, 5)), "导入完成：新增 3 · 重复 1 · 相似 2 · 失败 5");
    assert_eq!(summarize(stats(0, 1, 0, 5)), "导入完成：新增 0 · 重复 1 · 失败 5");
    assert_eq!(failure_text("  "), "导入失败");
    assert_eq!(failure_text(" sample-library failed: no disk "), "导入失败：no disk");
    assert_eq!(failure_text("x"), "导入失败：x");
    assert_eq!(tone_of("提示：已在库中"), TargetNoticeTone::Success);
    assert_eq!(tone_of("警示：损坏"), TargetNoticeTone::Warning);
}

fn job(fast: bool) -> ImportJob {
    ImportJob::start("/lib", None, "sample-library", true, fast).ok().unwrap()
}

#[test]
fn imports_go_on_to_thumbnails() {
    let report = ImportReport::new();
    let mut run = job(true);
    assert!(run.is_running());
    let step = run.imported(true, "", &report, true, "/w");
    assert_eq!(
        step,
        ImportStep::Derive {
            summary: "导入完成，正在后台生成缩略图...".to_string(),
            show_rows: false,
            args: strings(&["--library", "/lib", "--worker-exe", "/w", "--mode", "fast"]),
        }
    );
    assert_eq!(run.stage(), JobStage::Deriving);
    assert_eq!(run.derived(false, " half "), Some("缩略图派生未全部成功：half".to_string()));
    assert!(!run.is_running());

    let mut run = job(false);
    let step = run.imported(false, "bad", &report, true, "/w");
    assert_eq!(step, ImportStep::Failed { message: "导入失败：bad".to_string() });
    assert!(!run.is_running());

    let mut run = job(false);
    assert!(matches!(run.imported(true, "", &report, false, "/w"), ImportStep::NoTools { .. }));
    assert!(!run.is_running());

    let mut run = job(false);
    run.imported(true, "", &report, true, "/w");
    assert_eq!(run.derived(true, "noise"), None);

    let error = ImportJob::start("/lib", Some("denied"), "s", true, false).err();
    assert_eq!(
        error.as_deref(),
        Some("无法创建素材库目录 /lib: denied（请检查 --library-root 参数与磁盘权限）")
    );
    let error = ImportJob::start("/lib", None, "s", false, false).err();
    assert_eq!(error.as_deref(), Some("未找到导入工具 s，请确认与主程序同目录"));
    assert_eq!(import_mode_arg(false), "background");
}

fn picked(path: &str, kind: EntryKind) -> PickedPath {
    PickedPath { path: path.to_string(), kind }
}

#[test]
fn picked_paths_are_looked_into_before_they_are_planned() {
    assert_eq!(kind_of_path(true, "a.emo"), EntryKind::Directory);
    assert_eq!(kind_of_path(false, "dir/Pack.EMO"), EntryKind::EmoPackage);
    assert_eq!(kind_of_path(false, "emo"), EntryKind::LooseFile);

    let mut flow = ImportFlow::new();
    let list = vec![
        picked("d", EntryKind::Directory),
        picked("f.png", EntryKind::LooseFile),
        picked("p.emo", EntryKind::EmoPackage),
    ];
    assert!(matches!(flow.open(list.clone(), true), OpenStep::Refused { .. }));
    assert_eq!(flow.open(list, false), OpenStep::Probe { paths: strings(&["d", "p.emo"]) });
    flow.apply_probe("p.emo", Some(3));
    flow.apply_probe("unknown", Some(9));
    let counts: Vec<Option<usize>> = flow.list().iter().map(|e| e.category_count).collect();
    assert_eq!(counts, vec![None, None, Some(3)]);
    assert!(!flow.probe_done());
    assert!(flow.probe_done());
    assert!(flow.probe_done());

    let mut flow = ImportFlow::new();
    let loose = vec![picked("f.png", EntryKind::LooseFile)];
    assert_eq!(flow.open(loose.clone(), false), OpenStep::Plan);
    assert_eq!(flow.finalize(vec![], vec![]), PlanStep::Nothing);
    assert_eq!(flow.finalize(vec![], strings(&["p.emo"])), PlanStep::ImportSilently);
    assert!(flow.silent_packages().is_empty());
    assert_eq!(flow.finalize(vec![loose], strings(&["p.emo"])), PlanStep::AskUser);
    assert_eq!(flow.pending_groups().len(), 1);
    assert_eq!(flow.silent_packages(), &strings(&["p.emo"]));
}

#[test]
fn probes_are_read() {
    assert_eq!(read_probe("PROBE\tcategories=3"), Some(3));
    assert_eq!(read_probe("PROBE\tcategories= 12 "), Some(12));
    assert_eq!(read_probe("PROBE\tcategories=none"), None);
    assert_eq!(read_probe("PROBE\tcategories=2147483648"), None);
    assert_eq!(read_probe("PROBE categories=3"), None);
}

#[test]
fn decisions_name_what_they_create() {
    let existing = ClassifyTarget::Existing { name: "风景".to_string() };
    let fresh = ClassifyTarget::Fresh { name: "新".to_string() };
    let inbox_again = ClassifyTarget::Fresh { name: "待分类".to_string() };
    assert_eq!(existing.hint_kind(), CLASSIFY_HINT_EXISTING);
    assert_eq!(fresh.hint_kind(), CLASSIFY_HINT_NEW);
    assert_eq!(ClassifyTarget::Inbox.hint_kind(), CLASSIFY_HINT_INBOX);

    let decision = decide(CLASSIFY_CONFIRM_RESOLVE, &existing);
    assert_eq!(decision.mode, GroupMode::Into { name: "风景".to_string() });
    assert_eq!(decision.notice, None);
    let decision = decide(CLASSIFY_CONFIRM_RESOLVE, &fresh);
    assert_eq!(decision.mode, GroupMode::Create { name: "新".to_string() });
    assert_eq!(
        decision.notice.as_deref(),
        Some("未精确匹配到已有分类，已自动创建「新」并导入")
    );
    assert_eq!(decide(CLASSIFY_CONFIRM_RESOLVE, &inbox_again).notice, None);
    assert_eq!(decide(CLASSIFY_CONFIRM_RESOLVE, &ClassifyTarget::Inbox).mode, GroupMode::Inbox);
    assert_eq!(decide(CLASSIFY_CONFIRM_INBOX, &fresh).mode, GroupMode::Inbox);
    assert_eq!(decide(42, &fresh).mode, GroupMode::Inbox);
}

#[test]
fn list_for_the_importing_tool() {
    let silent = strings(&["s.emo"]);
    let groups = vec![
        vec![picked("d", EntryKind::Directory), picked("f.png", EntryKind::LooseFile)],
        vec![picked("p.emo", EntryKind::EmoPackage)],
    ];
    assert_eq!(
        import_list(&silent, &groups, "inbox"),
        "p\tauto\ts.emo\nd\tinbox\td\nf\tinbox\tf.png\np\tinbox\tp.emo\n"
    );
    assert_eq!(import_total(&silent, &groups), 4);
    assert_eq!(import_total(&vec![], &vec![]), 0);
    assert_eq!(import_label(4), "4 项素材");
    assert_eq!(start_text("4 项素材"), "开始导入：4 项素材");
    assert_eq!(
        import_arguments("list", "lib", true),
        strings(&["--import-paths", "list", "--library", "lib", "--mode", "fast"])
    );
}

fn sources(count: usize) -> Vec<Source> {
    (0..count)
        .map(|i| Source {
            url: format!("http://m{i}/i.exe"),
            sums_url: format!("http://m{i}/sums"),
            label: format!("m{i}"),
        })
        .collect()
}

fn anchor() -> String {
    "http://origin/sums".to_string()
}

#[test]
fn updates_begin_only_when_they_can() {
    assert_eq!(plan_install(true, true, true, true, true, true), InstallStart::Ignored);
    assert_eq!(
        plan_install(false, true, true, true, true, true),
        InstallStart::Refused { notice: "素材导入进行中，导入完成后再更新".to_string() }
    );
    assert_eq!(plan_install(false, false, false, true, true, true), InstallStart::Ignored);
    assert!(matches!(plan_install(false, false, true, false, true, true), InstallStart::Failed { .. }));
    assert!(matches!(plan_install(false, false, true, true, false, true), InstallStart::Failed { .. }));
    assert_eq!(plan_install(false, false, true, true, true, false), InstallStart::Ignored);
    assert_eq!(plan_install(false, false, true, true, true, true), InstallStart::Begin);
}

#[test]
fn verified_installer_is_launched() {
    let run = UpdateRun::start(sources(2), anchor());
    assert!(run.probes());
    assert_eq!(run.stage(), &UpdateStage::Choosing { sums_url: anchor() });
    let run = run.chosen(vec![1, 0], Some("list".to_string()), false);
    assert_eq!(run.stage(), &UpdateStage::LookingUp);
    assert_eq!(run.sums(), Some("list"));
    let run = run.looked_up(Some("abc".to_string()));
    assert_eq!(run.expected(), Some("abc"));
    assert_eq!(run.stage(), &UpdateStage::Downloading { source: 1 });
    assert_eq!(run.source(1).label, "m1");
    let run = run.download_failed("timeout", false);
    assert_eq!(run.stage(), &UpdateStage::Downloading { source: 0 });
    let run = run.downloaded();
    assert_eq!(run.stage(), &UpdateStage::Checking { source: 0 });
    let run = run.digest_compared(true, false);
    assert_eq!(run.stage(), &UpdateStage::Verified { source: 0 });
    assert_eq!(
        run.settle(false, "/app", 77, false),
        UpdateEnd::Launch {
            args: strings(&[
                "--silent",
                "--install-dir",
                "/app",
                "--wait-pid=77",
                "--no-shortcuts",
            ])
        }
    );
}

#[test]
fn failed_sources_are_all_named() {
    let run = UpdateRun::start(sources(3), anchor()).chosen(vec![2, 0, 1], None, false);
    assert_eq!(run.stage(), &UpdateStage::FetchingSums { source: 2 });
    let run = run.sums_failed("offline", false);
    assert_eq!(run.stage(), &UpdateStage::FetchingSums { source: 0 });
    let run = run.sums_fetched("list".to_string()).looked_up(Some("h".to_string()));
    let run = run.downloaded().digest_compared(false, false);
    assert_eq!(run.stage(), &UpdateStage::Downloading { source: 1 });
    let run = run.download_failed("reset", false);
    let message = "所有下载源均失败——m2: 清单获取失败（offline）；m0: SHA-256 不符（内容疑似滞后或被篡改）；m1: reset";
    assert_eq!(
        run.stage(),
        &UpdateStage::Stopped { reason: StopReason::AllFailed, message: message.to_string() }
    );
    assert_eq!(
        run.settle(false, "/app", 1, true),
        UpdateEnd::Failed { message: message.to_string() }
    );
}

#[test]
fn constant_failures_stop_at_once() {
    let run = UpdateRun::start(sources(1), anchor());
    assert!(!run.probes());
    let run = run.chosen(vec![0], Some("list".to_string()), false).looked_up(None);
    assert!(matches!(
        run.stage(),
        UpdateStage::Stopped { reason: StopReason::NoChecksum, .. }
    ));
    let run = UpdateRun::start(sources(2), anchor())
        .chosen(vec![0, 1], Some("list".to_string()), false)
        .looked_up(Some("h".to_string()))
        .downloaded()
        .digest_failed("io");
    assert_eq!(
        run.stage(),
        &UpdateStage::Stopped {
            reason: StopReason::NoDigest,
            message: "计算安装包摘要失败: io".to_string()
        }
    );
}

#[test]
fn cancelled_updates_stop_quietly() {
    let run = UpdateRun::start(sources(2), anchor()).chosen(vec![0, 1], None, true);
    assert!(matches!(run.stage(), UpdateStage::Stopped { reason: StopReason::Cancelled, .. }));
    assert_eq!(run.settle(true, "/app", 1, true), UpdateEnd::Discarded);
    let run = UpdateRun::start(sources(2), anchor())
        .chosen(vec![0, 1], Some("list".to_string()), false)
        .looked_up(Some("h".to_string()))
        .download_failed("cancelled", true);
    assert!(matches!(run.stage(), UpdateStage::Stopped { reason: StopReason::Cancelled, .. }));
}

#[test]
fn updates_are_told() {
    assert_eq!(choice_text("m0", Some(120)), "已选择最快源 m0（120ms）");
    assert_eq!(choice_text("m0", None), "开始直连下载…");
    assert_eq!(download_text("m0"), "正在从 m0 下载…");
    assert_eq!(launch_failure("denied"), "无法启动安装器: denied");
    assert!(shows_progress(5, 5, 0) && shows_progress(1, 5, 100) && !shows_progress(1, 5, 99));
    assert!(check_is_due(100, 50, 150, true));
    assert!(!check_is_due(100, 50, 149, true));
    assert!(!check_is_due(0, 0, 10, false));
    assert!(!check_is_due(u64::MAX, 50, 10, true));
    let end = end_check(Some("dns"), true, 7, false);
    assert_eq!(end.warning.as_deref(), Some("静默检查更新失败: dns"));
    assert_eq!((end.last_check_unix, end.open_dialog), (7, false));
    assert_eq!(end_check(Some("dns"), false, 7, true).warning, None);
    let dir = install_dir(Some("/local"), Some("/me")).unwrap();
    assert_eq!((dir.base.as_str(), dir.below), ("/local", strings(&["Programs", "素材管理器"])));
    let dir = install_dir(None, Some("/me")).unwrap();
    assert_eq!(dir.below, strings(&["AppData", "Local", "Programs", "素材管理器"]));
    assert_eq!(install_dir(None, None), None);
}

#[test]
fn quickest_places_come_first() {
    let times = vec![None, Some(30), Some(10), None, Some(30)];
    assert_eq!(rank_by_probe(&times), vec![2, 1, 4, 0, 3]);
    assert_eq!(rank_by_probe(&vec![None]), vec![0]);
    assert!(rank_by_probe(&vec![]).is_empty());
}

#[test]
fn probes_find_their_entry_by_its_path() {
    let mut flow = ImportFlow::new();
    let picked = ["a/b", "./a/b", "a//c/"]
        .map(|path| PickedPath { path: path.to_string(), kind: EntryKind::Directory });
    flow.open(picked.to_vec(), false);
    flow.apply_probe("a/./b/", Some(1));
    flow.apply_probe("./a//b", Some(2));
    flow.apply_probe("a/c", Some(3));
    flow.apply_probe("/a/b", Some(9));
    let counts: Vec<Option<usize>> = flow.list().iter().map(|entry| entry.category_count).collect();
    assert_eq!(counts, vec![Some(1), Some(2), Some(3)]);
    assert_eq!(list_failure("/tmp/l", "full"), "无法写入导入清单 /tmp/l: full");
}
