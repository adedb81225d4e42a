//! What the window shows and what the user does in it.

use asset_shelf::cards::{preview_of, CardStep, ResolverCardProvider, PREVIEW_CACHE_CAP};
use asset_shelf::commands::{
    action_targets, checked_name, click_pastes, command_text, known_uuids, plan_command, plan_menu,
    CommandStep, EscapeAction, MenuStep, Overlays, TwoStep,
};
use asset_shelf::demo::{demo_index, recent_first_sorter};
use asset_shelf::domain::{AssetId, AssetKind, CategoryId, Filter, TagId};
use asset_shelf::logging::{diagnostic_level, Level};
use asset_shelf::startup::{
    can_fall_back, choose_renderer, default_library_root, library_to_open, Renderer,
};
use asset_shelf::ui_enums::{
    card_kind, menu_action, notice_tone, search_scope, target_bar_mode, MenuAction, SearchScope,
    TargetBarMode, TargetNoticeTone, BAR_HIDDEN, BAR_MULTI, BAR_TRASH, CLASSIFY_CONFIRM_INBOX,
    CLASSIFY_CONFIRM_RESOLVE, CLASSIFY_HINT_EXISTING, CLASSIFY_HINT_INBOX, CLASSIFY_HINT_NEW,
    IMPORT_RESULT_EXACT, IMPORT_RESULT_FAILED, IMPORT_RESULT_SIMILAR,
};
use asset_shelf::upkeep::{
    candidate_dirs, cleared_notice, export_arguments, export_text, failed_item, migration_entry,
    migration_label, plan_clear, plan_export, progress_text, ClearStep, ExportStep, LegacyLibrary,
    Migration, MigrationEntry, MigrationStage, MigrationStart,
};
use asset_shelf::view::{
    category_after_search, category_counts_for, choice_status, default_categories,
    dimensions_text, empty_text, filter_for, format_timestamp, health_color, listed_categories,
    listed_counts, menu_title, notice_lifetime_ms, search_label, selected_category, selection_bar,
    selection_text, total_text, TargetHealth, NO_CATEGORY, TRASH_CATEGORY,
};

fn strings(values: &[&str]) -> Vec<String> {
    values.iter().map(|value| value.to_string()).collect()
}

#[test]
fn mappings_match_slint_ui_enums_constants() {
    assert_eq!(target_bar_mode(TargetBarMode::Empty), 0);
    assert_eq!(target_bar_mode(TargetBarMode::Ready), 1);
    assert_eq!(target_bar_mode(TargetBarMode::NeedsConfirmation), 2);
    assert_eq!(target_bar_mode(TargetBarMode::ChooseTarget), 3);
    assert_eq!(notice_tone(TargetNoticeTone::Success), 0);
    assert_eq!(notice_tone(TargetNoticeTone::Warning), 1);
    assert_eq!(notice_tone(TargetNoticeTone::Error), 2);
    assert_eq!(card_kind(AssetKind::Image), 0);
    assert_eq!(card_kind(AssetKind::Video), 1);
    assert_eq!(card_kind(AssetKind::Text), 2);
    assert_eq!(card_kind(AssetKind::Other), 3);
    assert_eq!(IMPORT_RESULT_EXACT, 0);
    assert_eq!(IMPORT_RESULT_SIMILAR, 1);
    assert_eq!(IMPORT_RESULT_FAILED, 2);
    assert_eq!(CLASSIFY_HINT_INBOX, 0);
    assert_eq!(CLASSIFY_HINT_EXISTING, 1);
    assert_eq!(CLASSIFY_HINT_NEW, 2);
    assert_eq!(CLASSIFY_CONFIRM_RESOLVE, 0);
    assert_eq!(CLASSIFY_CONFIRM_INBOX, 1);
}

#[test]
fn numbers_of_the_window_are_read() {
    let actions: Vec<Option<MenuAction>> = (-1..6).map(menu_action).collect();
    assert_eq!(
        actions,
        vec![
            None,
            Some(MenuAction::Copy),
            Some(MenuAction::MoveToCategory),
            Some(MenuAction::Rename),
            Some(MenuAction::Properties),
            Some(MenuAction::Delete),
            None,
        ]
    );
    let scopes: Vec<SearchScope> = (-1..5).map(search_scope).collect();
    assert_eq!(
        scopes,
        vec![
            SearchScope::All,
            SearchScope::All,
            SearchScope::FileName,
            SearchScope::Category,
            SearchScope::Tag,
            SearchScope::All,
        ]
    );
}

#[test]
fn counts_and_empty_views_are_told() {
    assert_eq!(total_text(12), "共 12 项");
    let said = |total, query, library, trash| {
        let text = empty_text(total, query, library, trash);
        (text.title, text.hint)
    };
    assert_eq!(said(3, "x", true, true), (String::new(), String::new()));
    assert_eq!(said(0, "", true, true).0, "回收站是空的");
    assert_eq!(said(0, " x ", true, false).0, "没有匹配的素材");
    assert_eq!(said(0, "  ", false, false).0, "素材库还是空的");
    assert_eq!(said(0, "", true, false).1, "换个分类，或继续导入素材");
}

#[test]
fn categories_are_listed_with_their_counts() {
    assert_eq!(default_categories().len(), 6);
    assert_eq!(listed_categories(&strings(&["a", "b"])), strings(&["全部", "a", "b"]));
    assert_eq!(listed_counts(&vec![3, 4]), vec![7, 3, 4]);
    assert_eq!(listed_counts(&vec![]), vec![0]);
    let facets = vec![("b".to_string(), 5), ("a".to_string(), 2), ("b".to_string(), 9)];
    assert_eq!(category_counts_for(&strings(&["a", "x", "b"]), &facets), vec![2, 0, 5]);
}

#[test]
fn selection_is_told() {
    assert_eq!(selection_bar(true, true), BAR_TRASH);
    assert_eq!(selection_bar(false, true), BAR_MULTI);
    assert_eq!(selection_bar(false, false), BAR_HIDDEN);
    assert_eq!(selection_text(true, 2), "回收站 · 已选 2 项");
    assert_eq!(selection_text(true, 0), "回收站");
    assert_eq!(selection_text(false, 10), "已选 10 项");
    assert_eq!(selection_text(false, 0), "点击素材选择，Esc 退出");
}

#[test]
fn clicked_category_is_the_one_that_is_marked() {
    let listed = strings(&["全部", "风景"]);
    for code in [-3, -1, 0, 7, i32::MAX] {
        assert_eq!(selected_category(&filter_for(code, &listed).filter), code);
    }
    assert_eq!(filter_for(-3, &listed).label, "回收站");
    assert_eq!(filter_for(-2, &listed).filter, Filter::All);
    assert_eq!(filter_for(0, &listed).label, "风景");
    assert_eq!(filter_for(1, &listed).label, "分类1");
    assert_eq!(selected_category(&Filter::HasTag(TagId(1))), NO_CATEGORY);
    assert_eq!(category_after_search(&Filter::HasTag(TagId(1))), -1);
    assert_eq!(category_after_search(&Filter::Trash), TRASH_CATEGORY);
    assert_eq!(category_after_search(&Filter::InCategory(CategoryId(4))), 4);
}

#[test]
fn searches_and_menus_have_names() {
    assert_eq!(search_label("  ", SearchScope::Tag), None);
    assert_eq!(search_label(" 猫 ", SearchScope::All).as_deref(), Some("搜索「猫」"));
    assert_eq!(
        search_label("猫", SearchScope::Tag).as_deref(),
        Some("搜索「猫」 · 仅标签")
    );
    assert_eq!(menu_title(1, Some("a.png")), "a.png");
    assert_eq!(menu_title(1, None), "1 项");
    assert_eq!(menu_title(3, Some("a.png")), "3 项");
}

#[test]
fn properties_are_told() {
    assert_eq!(dimensions_text(Some(640), Some(480)), "640 × 480 px");
    assert_eq!(dimensions_text(Some(640), None), "—（尚未探测）");
    assert_eq!(format_timestamp(0), "—");
    assert_eq!(format_timestamp(-5), "—");
    assert_eq!(format_timestamp(1), "1970-01-01 00:00");
    assert_eq!(format_timestamp(1_788_022_980), "2026-08-29 17:03");
}

#[test]
fn targets_and_notices_are_shown() {
    assert_eq!(health_color(TargetHealth::Green), 0xFF5AC18E);
    assert_eq!(health_color(TargetHealth::Unknown), 0xFF777B80);
    assert_eq!(choice_status(true, true), "运行中 · 可选择");
    assert_eq!(choice_status(true, false), "隐藏中 · 可选择");
    assert_eq!(choice_status(false, true), "未运行 · 选择后仅复制");
    assert_eq!(notice_lifetime_ms(TargetNoticeTone::Success), Some(3200));
    assert_eq!(notice_lifetime_ms(TargetNoticeTone::Error), None);
}

#[test]
fn actions_are_about_the_selection_or_the_hit() {
    let ids = |list: &[u32]| list.iter().map(|id| AssetId(*id)).collect::<Vec<_>>();
    assert_eq!(action_targets(ids(&[1, 2]), Some(AssetId(9))), ids(&[1, 2]));
    assert_eq!(action_targets(ids(&[]), Some(AssetId(9))), ids(&[9]));
    assert_eq!(action_targets(ids(&[]), None), ids(&[]));
    let found = vec![Some("u1".to_string()), None, Some("u3".to_string())];
    assert_eq!(known_uuids(found), strings(&["u1", "u3"]));
}

#[test]
fn commands_wait_for_imports_and_need_assets() {
    let uuids = strings(&["u1", "u2"]);
    assert_eq!(
        plan_command(true, "trash", "lib", &uuids, None),
        CommandStep::Refused {
            notice: "正在导入/生成缩略图，请等进度条结束后再操作".to_string()
        }
    );
    assert_eq!(plan_command(false, "trash", "lib", &vec![], None), CommandStep::Nothing);
    assert_eq!(
        plan_command(false, "empty-trash", "lib", &vec![], None),
        CommandStep::Run { args: strings(&["--cmd", "empty-trash", "--library", "lib"]) }
    );
    assert_eq!(
        plan_command(false, "rename", "lib", &uuids, Some("new")),
        CommandStep::Run {
            args: strings(&[
                "--cmd", "rename", "--library", "lib", "--uuid", "u1", "--uuid", "u2", "--value",
                "new",
            ])
        }
    );
    assert_eq!(command_text("删除", true, "x"), "删除完成");
    assert_eq!(command_text("删除", false, ""), "删除失败");
    assert_eq!(command_text("删除", false, "x"), "删除失败：x");
}

#[test]
fn names_stay_in_one_directory() {
    assert_eq!(checked_name("  猫.png ").as_deref(), Ok("猫.png"));
    let why = Err("名称不能为空或含路径分隔符".to_string());
    assert_eq!(checked_name("   "), why);
    assert_eq!(checked_name("a/b"), why);
    assert_eq!(checked_name("a\\b"), why);
}

#[test]
fn some_things_are_asked_for_twice() {
    let mut confirm = TwoStep::new();
    assert!(!confirm.press());
    assert!(confirm.armed());
    assert!(confirm.press());
    assert!(!confirm.armed());
}

#[test]
fn escape_closes_one_thing_at_a_time() {
    let mut open = Overlays {
        classify: true,
        update: true,
        update_downloading: true,
        import_menu: true,
        scope_menu: true,
        context_menu: true,
        move_menu: true,
        rename: true,
        properties: true,
        target_rename: true,
        settings: true,
        multi_select: true,
    };
    assert_eq!(open.escape(), EscapeAction::CloseClassify);
    open.classify = false;
    assert_eq!(open.escape(), EscapeAction::CloseUpdate { cancel_download: true });
    open.update = false;
    assert_eq!(open.escape(), EscapeAction::CloseImportMenu);
    open.import_menu = false;
    assert_eq!(open.escape(), EscapeAction::CloseScopeMenu);
    open.scope_menu = false;
    assert_eq!(open.escape(), EscapeAction::CloseContextMenu);
    open.context_menu = false;
    assert_eq!(open.escape(), EscapeAction::CloseMoveMenu);
    open.move_menu = false;
    assert_eq!(open.escape(), EscapeAction::CloseRename);
    open.rename = false;
    assert_eq!(open.escape(), EscapeAction::CloseProperties);
    open.properties = false;
    assert_eq!(open.escape(), EscapeAction::CloseTargetRename);
    open.target_rename = false;
    assert_eq!(open.escape(), EscapeAction::CloseSettings);
    open.settings = false;
    assert_eq!(open.escape(), EscapeAction::LeaveMultiSelect);
    open.multi_select = false;
    assert_eq!(open.escape(), EscapeAction::Nothing);
}

#[test]
fn texts_are_previewed() {
    assert_eq!(preview_of("  hello \r\nworld"), "hello");
    assert_eq!(preview_of(""), "");
    let long = "字".repeat(49);
    assert_eq!(preview_of(&long), format!("{}…", "字".repeat(48)));
    assert_eq!(preview_of(&"字".repeat(48)), "字".repeat(48));
}

#[test]
fn previews_are_remembered() {
    let mut cards = ResolverCardProvider::new();
    assert!(matches!(cards.card_data(AssetKind::Text, 1), CardStep::Read));
    assert_eq!(cards.read(1, Some((AssetKind::Text, "one\ntwo"))).preview, "one");
    assert_eq!(cards.read(2, Some((AssetKind::Image, "one"))).preview, "");
    assert_eq!(cards.read(3, None).preview, "");
    match cards.card_data(AssetKind::Text, 1) {
        CardStep::Ready { card } => assert_eq!(card.preview, "one"),
        CardStep::Read => panic!("forgotten"),
    }
    match cards.card_data(AssetKind::Video, 9) {
        CardStep::Ready { card } => assert_eq!((card.kind, card.preview.as_str()), (AssetKind::Video, "")),
        CardStep::Read => panic!("not a text"),
    }
    for id in 4..=PREVIEW_CACHE_CAP as u32 {
        cards.read(id, None);
    }
    assert!(matches!(cards.card_data(AssetKind::Text, 1), CardStep::Ready { .. }));
    cards.read(1000, None);
    assert!(matches!(cards.card_data(AssetKind::Text, 1), CardStep::Read));
    assert!(matches!(cards.card_data(AssetKind::Text, 1000), CardStep::Ready { .. }));
}

#[test]
fn older_libraries_are_announced() {
    assert_eq!(candidate_dirs(Some("/app"), Some("/app")), strings(&["/app"]));
    assert_eq!(candidate_dirs(Some("/app"), Some("/inst")), strings(&["/app", "/inst"]));
    assert_eq!(candidate_dirs(None, Some("/inst")), strings(&["/inst"]));
    assert_eq!(candidate_dirs(Some("/a/app"), Some("/a//app/")), strings(&["/a/app"]));
    assert_eq!(candidate_dirs(Some("/app"), Some("app")), strings(&["/app", "app"]));
    let legacy = LegacyLibrary {
        source: "/inst/library".to_string(),
        parent: Some("/inst".to_string()),
        file_count: 12,
        is_backup: false,
    };
    assert_eq!(
        migration_entry(Some(&legacy), None, Some("/app"), "3.5"),
        MigrationEntry::Available {
            detail: "检测到旧版素材库（位于 /inst）：12 个文件（3.5 MB）。迁移自动去重合并，旧目录改名留档。".to_string()
        }
    );
    assert_eq!(
        migration_entry(Some(&legacy), None, Some("/inst"), "3.5"),
        MigrationEntry::Available {
            detail: "检测到旧版素材库：12 个文件（3.5 MB）。迁移自动去重合并，旧目录改名留档。".to_string()
        }
    );
    assert_eq!(
        migration_entry(None, Some("/b"), None, ""),
        MigrationEntry::Done {
            backup: "/b".to_string(),
            detail: "旧素材已并入统一库。留档目录：/b（确认无误后可手动删除）。".to_string()
        }
    );
    assert_eq!(
        migration_entry(Some(&legacy), None, Some("/inst/./"), "3.5"),
        migration_entry(Some(&legacy), None, Some("/inst"), "3.5")
    );
    assert_eq!(migration_entry(None, None, None, ""), MigrationEntry::Hidden);
}

fn begin(legacy: &LegacyLibrary) -> Migration {
    match Migration::start(false, Some(legacy)) {
        MigrationStart::Begin { migration } => migration,
        _ => panic!("refused"),
    }
}

#[test]
fn failed_migrations_put_everything_back() {
    let legacy = LegacyLibrary {
        source: "/app/library".to_string(),
        parent: Some("/app".to_string()),
        file_count: 2,
        is_backup: false,
    };
    let aside = LegacyLibrary { is_backup: true, ..legacy.clone() };
    let empty = LegacyLibrary { file_count: 0, ..legacy.clone() };
    assert!(matches!(Migration::start(true, Some(&legacy)), MigrationStart::Refused { .. }));
    assert!(matches!(Migration::start(false, Some(&empty)), MigrationStart::Hidden));
    assert!(matches!(Migration::start(false, None), MigrationStart::Hidden));

    let mut run = begin(&legacy);
    assert_eq!(run.stage(), MigrationStage::Renaming);
    run.rename_failed("locked");
    assert_eq!(run.stage(), MigrationStage::Undone);

    let mut run = begin(&legacy);
    run.renamed();
    assert_eq!(run.list_failed("full"), (true, "无法生成迁移清单: full".to_string()));

    let mut run = begin(&legacy);
    run.renamed();
    run.listed();
    assert_eq!(run.imported(false, "b"), (true, None));

    let mut run = begin(&aside);
    assert_eq!(run.stage(), MigrationStage::Listing);
    run.listed();
    assert_eq!(run.imported(false, "b"), (false, None));

    let mut run = begin(&legacy);
    run.renamed();
    run.listed();
    let (back, notice) = run.imported(true, "library-old");
    assert!(!back);
    assert!(notice.unwrap().contains("library-old"));
    assert_eq!(migration_label(2), "旧版素材迁移（2 项）");
}

#[test]
fn clearing_is_confirmed_and_told() {
    let mut confirm = TwoStep::new();
    assert!(matches!(plan_clear(true, &mut confirm, true), ClearStep::Told { .. }));
    assert!(!confirm.armed());
    assert!(matches!(plan_clear(false, &mut confirm, true), ClearStep::Told { .. }));
    assert_eq!(plan_clear(false, &mut confirm, true), ClearStep::Clear);
    plan_clear(false, &mut confirm, true);
    assert!(matches!(plan_clear(false, &mut confirm, false), ClearStep::Told { .. }));

    let (tone, text) = cleared_notice("/lib", &vec![]);
    assert_eq!(tone, TargetNoticeTone::Success);
    assert_eq!(text, "素材库已清空（/lib），点「导入素材…」重新开始");
    let items = vec![failed_item("thumbs", "busy"), failed_item("meta.db", "locked")];
    let (tone, text) = cleared_notice("/lib", &items);
    assert_eq!(tone, TargetNoticeTone::Error);
    assert!(text.contains("thumbs（busy）；meta.db（locked）"));
    let (tone, text) = cleared_notice("/lib", &vec![failed_item("thumbs", "busy")]);
    assert_eq!(tone, TargetNoticeTone::Warning);
    assert!(text.ends_with("稍后可重试：thumbs（busy）。素材库已重置为空，可直接重新导入"));
}

#[test]
fn exports_are_told() {
    assert_eq!(export_arguments("lib", "out.emo"), strings(&["export", "lib", "out.emo"]));
    assert_eq!(export_text(true, "out.emo", "x"), "导出完成：out.emo");
    assert_eq!(export_text(false, "out.emo", "  "), "导出失败");
    assert_eq!(export_text(false, "out.emo", " disk "), "导出失败：disk");
    assert_eq!(progress_text("正在导出素材", 3, 9), "正在导出素材 3/9");
}

#[test]
fn made_up_assets_stand_in_for_a_library() {
    let index = demo_index();
    assert_eq!(index.len(), 500);
    let asset = index.asset(123).unwrap();
    assert_eq!(asset.name, "演示资产-0123");
    assert_eq!(asset.category, Some(CategoryId(3)));
    assert_eq!(index.evaluate(&Filter::HasTag(TagId(4))).len(), 71);
    let order = index.sorted_ids(&recent_first_sorter(), index.all_ids());
    assert_eq!(order[0], 499);
    assert_eq!(order[499], 0);
}

#[test]
fn renderer_and_library_are_chosen() {
    assert_eq!(choose_renderer(false, true, true), None);
    assert_eq!(choose_renderer(true, true, true), Some(Renderer::Software));
    assert_eq!(choose_renderer(false, false, false), Some(Renderer::Software));
    assert_eq!(choose_renderer(false, false, true).map(Renderer::name), Some("femtovg"));
    assert!(can_fall_back(true, false, false, false));
    assert!(!can_fall_back(true, false, true, false));
    let dir = default_library_root(Some("/local"), Some("/app"));
    assert_eq!((dir.base.as_deref(), dir.below), (Some("/local"), strings(&["asset-manager", "library"])));
    let dir = default_library_root(Some(""), Some("/app"));
    assert_eq!((dir.base.as_deref(), dir.below), (Some("/app"), strings(&["library"])));
    let dir = default_library_root(None, None);
    assert_eq!((dir.base.as_deref(), dir.below), (None, strings(&["library"])));
}

#[test]
fn one_kind_of_click_pastes() {
    assert!(click_pastes(true, false, false));
    assert!(!click_pastes(false, false, false));
    assert!(click_pastes(false, true, false));
    assert!(!click_pastes(true, true, false));
    for double in [false, true] {
        for single in [false, true] {
            assert!(!click_pastes(double, single, true));
        }
    }
}

#[test]
fn menu_items_are_carried_out() {
    let two = || vec![AssetId(4), AssetId(7)];
    assert_eq!(plan_menu(0, two()), MenuStep::Copy { id: AssetId(4) });
    assert_eq!(plan_menu(1, two()), MenuStep::AskCategory);
    assert_eq!(plan_menu(2, two()), MenuStep::AskName { id: AssetId(4) });
    assert_eq!(plan_menu(3, two()), MenuStep::ShowProperties { id: AssetId(4) });
    assert_eq!(plan_menu(4, two()), MenuStep::Trash { ids: two() });
    assert_eq!(plan_menu(5, two()), MenuStep::Nothing);
    assert_eq!(plan_menu(4, vec![]), MenuStep::Nothing);
}

#[test]
fn clicks_beside_close_menus_only() {
    let all = Overlays {
        classify: true,
        update: true,
        update_downloading: true,
        import_menu: true,
        scope_menu: true,
        context_menu: true,
        move_menu: true,
        rename: true,
        properties: true,
        target_rename: true,
        settings: true,
        multi_select: true,
    };
    assert_eq!(
        all.dismiss(),
        Overlays {
            import_menu: false,
            scope_menu: false,
            context_menu: false,
            move_menu: false,
            ..all
        }
    );
}

#[test]
fn exports_need_a_library_a_place_and_the_tool() {
    assert_eq!(
        plan_export("r", false, Some("p"), "t", true),
        ExportStep::NoLibrary { notice: "当前没有真实库可导出".to_string() }
    );
    assert_eq!(plan_export("r", true, None, "t", true), ExportStep::Cancelled);
    assert_eq!(
        plan_export("r", true, Some("p"), "t", false),
        ExportStep::NoTool { notice: "未找到导出工具 t，请确认与主程序同目录".to_string() }
    );
    assert_eq!(
        plan_export("r", true, Some("p"), "t", true),
        ExportStep::Run {
            args: strings(&["export", "r", "p"]),
            notice: "开始导出 .emo：p".to_string()
        }
    );
}

#[test]
fn usual_library_is_opened_where_there_is_one() {
    let asked = || Some("a".to_string());
    assert_eq!(library_to_open(asked(), "b", true), asked());
    assert_eq!(library_to_open(None, "b", true).as_deref(), Some("b"));
    assert_eq!(library_to_open(None, "b", false), None);
    assert_eq!(diagnostic_level(true), Level::Trace);
    assert_eq!(diagnostic_level(false), Level::Info);
}
