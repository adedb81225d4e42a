//! The numbers by which the window knows things. Nowhere else are they written down.

use vstd::prelude::*;

use crate::domain::AssetKind;

verus! {

/// What the bar of the paste target shows.
#[derive(Debug, Clone, Copy, PartialEq, Eq, Structural)]
pub enum TargetBarMode {
    Empty,
    Ready,
    NeedsConfirmation,
    ChooseTarget,
}

/// How a notice is meant.
#[derive(Debug, Clone, Copy, PartialEq, Eq, Structural)]
pub enum TargetNoticeTone {
    Success,
    Warning,
    Error,
}

/// What the menu of an asset offers.
#[derive(Debug, Clone, Copy, PartialEq, Eq, Structural)]
pub enum MenuAction {
    Copy,
    MoveToCategory,
    Rename,
    Properties,
    Delete,
}

/// Where a search looks.
#[derive(Debug, Clone, Copy, PartialEq, Eq, Structural)]
pub enum SearchScope {
    All,
    FileName,
    Category,
    Tag,
}

pub const SCOPE_ALL: i32 = 0;

pub const SCOPE_FILE_NAME: i32 = 1;

pub const SCOPE_CATEGORY: i32 = 2;

pub const SCOPE_TAG: i32 = 3;

/// The bar for the selection: hidden, for many assets, for the trash.
pub const BAR_HIDDEN: i32 = 0;

pub const BAR_MULTI: i32 = 1;

pub const BAR_TRASH: i32 = 2;

/// A row of the report on an import: the same asset, a similar one, a failure.
pub const IMPORT_RESULT_EXACT: i32 = 0;

pub const IMPORT_RESULT_SIMILAR: i32 = 1;

pub const IMPORT_RESULT_FAILED: i32 = 2;

/// Where an import will go: to the inbox, to a category that is there, to a new one.
pub const CLASSIFY_HINT_INBOX: i32 = 0;

pub const CLASSIFY_HINT_EXISTING: i32 = 1;

pub const CLASSIFY_HINT_NEW: i32 = 2;

/// What confirming an import means: go by what was typed, or take the inbox.
pub const CLASSIFY_CONFIRM_RESOLVE: i32 = 0;

pub const CLASSIFY_CONFIRM_INBOX: i32 = 1;

pub fn target_bar_mode(mode: TargetBarMode) -> (r: i32)
    ensures
        r == match mode {
            TargetBarMode::Empty => 0i32,
            TargetBarMode::Ready => 1,
            TargetBarMode::NeedsConfirmation => 2,
            TargetBarMode::ChooseTarget => 3,
        },
{
    match mode {
        TargetBarMode::Empty => 0,
        TargetBarMode::Ready => 1,
        TargetBarMode::NeedsConfirmation => 2,
        TargetBarMode::ChooseTarget => 3,
    }
}

pub fn notice_tone(tone: TargetNoticeTone) -> (r: i32)
    ensures
        r == match tone {
            TargetNoticeTone::Success => 0i32,
            TargetNoticeTone::Warning => 1,
            TargetNoticeTone::Error => 2,
        },
{
    match tone {
        TargetNoticeTone::Success => 0,
        TargetNoticeTone::Warning => 1,
        TargetNoticeTone::Error => 2,
    }
}

pub open spec fn kind_code(kind: AssetKind) -> i32 {
    match kind {
        AssetKind::Image => 0,
        AssetKind::Video => 1,
        AssetKind::Text => 2,
        AssetKind::Other => 3,
    }
}

pub fn card_kind(kind: AssetKind) -> (r: i32)
    ensures
        r == kind_code(kind),
        kind == AssetKind::Image <==> r == 0,
        kind == AssetKind::Video <==> r == 1,
        kind == AssetKind::Text <==> r == 2,
        kind == AssetKind::Other <==> r == 3,
{
    match kind {
        AssetKind::Image => 0,
        AssetKind::Video => 1,
        AssetKind::Text => 2,
        AssetKind::Other => 3,
    }
}

pub open spec fn action_code(action: MenuAction) -> i32 {
    match action {
        MenuAction::Copy => 0,
        MenuAction::MoveToCategory => 1,
        MenuAction::Rename => 2,
        MenuAction::Properties => 3,
        MenuAction::Delete => 4,
    }
}

/// The action with a number.
pub open spec fn menu_action_of(id: i32) -> Option<MenuAction> {
    if id == 0 {
        Some(MenuAction::Copy)
    } else if id == 1 {
        Some(MenuAction::MoveToCategory)
    } else if id == 2 {
        Some(MenuAction::Rename)
    } else if id == 3 {
        Some(MenuAction::Properties)
    } else if id == 4 {
        Some(MenuAction::Delete)
    } else {
        None
    }
}

/// The action with a number.
pub fn menu_action(id: i32) -> (r: Option<MenuAction>)
    ensures
        r == menu_action_of(id),
        id == 0 <==> r == Some(MenuAction::Copy),
        id == 1 <==> r == Some(MenuAction::MoveToCategory),
        id == 2 <==> r == Some(MenuAction::Rename),
        id == 3 <==> r == Some(MenuAction::Properties),
        id == 4 <==> r == Some(MenuAction::Delete),
        match r {
            Some(action) => action_code(action) == id,
            None => forall|action: MenuAction| #[trigger] action_code(action) != id,
        },
{
    match id {
        0 => Some(MenuAction::Copy),
        1 => Some(MenuAction::MoveToCategory),
        2 => Some(MenuAction::Rename),
        3 => Some(MenuAction::Properties),
        4 => Some(MenuAction::Delete),
        _ => None,
    }
}

pub open spec fn scope_code(scope: SearchScope) -> i32 {
    match scope {
        SearchScope::All => SCOPE_ALL,
        SearchScope::FileName => SCOPE_FILE_NAME,
        SearchScope::Category => SCOPE_CATEGORY,
        SearchScope::Tag => SCOPE_TAG,
    }
}

/// The scope with a number. A number that is none looks everywhere.
pub fn search_scope(code: i32) -> (r: SearchScope)
    ensures
        scope_code(r) == code || (r is All && !(SCOPE_ALL <= code <= SCOPE_TAG)),
        code == 1 <==> r == SearchScope::FileName,
        code == 2 <==> r == SearchScope::Category,
        code == 3 <==> r == SearchScope::Tag,
{
    if code == SCOPE_FILE_NAME {
        SearchScope::FileName
    } else if code == SCOPE_CATEGORY {
        SearchScope::Category
    } else if code == SCOPE_TAG {
        SearchScope::Tag
    } else {
        SearchScope::All
    }
}

/// No two actions have the same number.
pub proof fn action_codes_are_distinct(a: MenuAction, b: MenuAction)
    requires
        action_code(a) == action_code(b),
    ensures
        a == b,
{
}

/// No two kinds of assets have the same number.
pub proof fn kind_codes_are_distinct(a: AssetKind, b: AssetKind)
    requires
        kind_code(a) == kind_code(b),
    ensures
        a == b,
{
}

/// No two scopes have the same number.
pub proof fn scope_codes_are_distinct(a: SearchScope, b: SearchScope)
    requires
        scope_code(a) == scope_code(b),
    ensures
        a == b,
{
}

/// The numbers of the bars, of the rows of a report and of what is said of a category.
pub proof fn numbers_of_the_window()
    ensures
        BAR_HIDDEN == 0 && BAR_MULTI == 1 && BAR_TRASH == 2,
        IMPORT_RESULT_EXACT == 0 && IMPORT_RESULT_SIMILAR == 1 && IMPORT_RESULT_FAILED == 2,
        CLASSIFY_HINT_INBOX == 0 && CLASSIFY_HINT_EXISTING == 1 && CLASSIFY_HINT_NEW == 2,
        CLASSIFY_CONFIRM_RESOLVE == 0 && CLASSIFY_CONFIRM_INBOX == 1,
        SCOPE_ALL == 0 && SCOPE_FILE_NAME == 1 && SCOPE_CATEGORY == 2 && SCOPE_TAG == 3,
        action_code(MenuAction::Copy) == 0,
        action_code(MenuAction::MoveToCategory) == 1,
        action_code(MenuAction::Rename) == 2,
        action_code(MenuAction::Properties) == 3,
        action_code(MenuAction::Delete) == 4,
{
}

} // verus!
