//! What the user does to assets: which ones are meant, when the library may be changed, and
//! what is confirmed before it happens.

use vstd::prelude::*;

use crate::domain::AssetId;
use crate::fields::texts;
use crate::text::{chars_of, same_text, trim, trimmed};
use crate::ui_enums::{menu_action, MenuAction};
#[allow(unused_imports)]
use crate::ui_enums::menu_action_of;

verus! {

/// The assets that an action is about: those that are chosen, or else the one that was hit.
pub fn action_targets(selection: Vec<AssetId>, hit: Option<AssetId>) -> (r: Vec<AssetId>)
    ensures
        selection@.len() > 0 ==> r@ == selection@,
        selection@.len() == 0 ==> r@ == match hit {
            Some(id) => seq![id],
            None => Seq::empty(),
        },
{
    if selection.len() > 0 {
        return selection;
    }
    let mut targets: Vec<AssetId> = Vec::new();
    if let Some(id) = hit {
        targets.push(id);
    }
    assert(targets@ =~= match hit {
        Some(id) => seq![id],
        None => Seq::empty(),
    });
    targets
}

/// The ones that are there.
pub open spec fn present(found: Seq<Option<String>>) -> Seq<Seq<char>>
    decreases found.len(),
{
    if found.len() == 0 {
        Seq::empty()
    } else {
        match found.last() {
            Some(uuid) => present(found.drop_last()).push(uuid@),
            None => present(found.drop_last()),
        }
    }
}

/// The names of assets in the library, without those that it does not know.
pub fn known_uuids(found: Vec<Option<String>>) -> (r: Vec<String>)
    ensures
        texts(r@) == present(found@),
{
    let mut uuids: Vec<String> = Vec::new();
    let mut i: usize = 0;
    assert(texts(uuids@) =~= present(found@.take(0)));
    while i < found.len()
        invariant
            i <= found@.len(),
            texts(uuids@) == present(found@.take(i as int)),
        decreases found@.len() - i,
    {
        assert(found@.take(i + 1).drop_last() =~= found@.take(i as int));
        let ghost before = uuids@;
        if let Some(uuid) = &found[i] {
            uuids.push(uuid.clone());
            assert(texts(uuids@) =~= texts(before).push(uuid@));
        }
        i = i + 1;
    }
    assert(found@.take(i as int) =~= found@);
    uuids
}

/// The arguments for the assets that a command is about.
pub open spec fn uuid_args(uuids: Seq<Seq<char>>) -> Seq<Seq<char>>
    decreases uuids.len(),
{
    if uuids.len() == 0 {
        Seq::empty()
    } else {
        uuid_args(uuids.drop_last()).push("--uuid"@).push(uuids.last())
    }
}

/// The arguments of the tool that changes the library.
pub open spec fn command_args(
    action: Seq<char>,
    root: Seq<char>,
    uuids: Seq<Seq<char>>,
    value: Option<Seq<char>>,
) -> Seq<Seq<char>> {
    let args = seq!["--cmd"@, action, "--library"@, root] + uuid_args(uuids);
    match value {
        Some(value) => args.push("--value"@).push(value),
        None => args,
    }
}

/// What comes of a command.
#[derive(Debug, Clone, PartialEq, Eq)]
pub enum CommandStep {
    /// The library is being changed already.
    Refused { notice: String },
    /// There is nothing to do.
    Nothing,
    /// The tool runs with these arguments.
    Run { args: Vec<String> },
}

/// A command to change the library. Nothing is changed while an import is on its way, and
/// nothing happens for no assets, but that the trash is emptied.
pub fn plan_command(
    importing: bool,
    action: &str,
    root: &str,
    uuids: &Vec<String>,
    value: Option<&str>,
) -> (r: CommandStep)
    ensures
        if importing {
            r matches CommandStep::Refused { notice } && notice@ == "正在导入/生成缩略图，请等进度条结束后再操作"@
        } else if uuids@.len() == 0 && action@ != "empty-trash"@ {
            r is Nothing
        } else {
            r matches CommandStep::Run { args } && texts(args@) == command_args(
                action@,
                root@,
                texts(uuids@),
                match value {
                    Some(value) => Some(value@),
                    None => None,
                },
            )
        },
{
    if importing {
        return CommandStep::Refused {
            notice: "正在导入/生成缩略图，请等进度条结束后再操作".to_owned(),
        };
    }
    if uuids.len() == 0 && !same_text(action, "empty-trash") {
        return CommandStep::Nothing;
    }
    let mut args: Vec<String> = Vec::new();
    args.push("--cmd".to_owned());
    args.push(action.to_owned());
    args.push("--library".to_owned());
    args.push(root.to_owned());
    let ghost head = seq!["--cmd"@, action@, "--library"@, root@];
    let mut i: usize = 0;
    assert(texts(args@) =~= head + uuid_args(texts(uuids@).take(0)));
    while i < uuids.len()
        invariant
            i <= uuids@.len(),
            texts(args@) == head + uuid_args(texts(uuids@).take(i as int)),
        decreases uuids@.len() - i,
    {
        let ghost before = args@;
        let ghost next = texts(uuids@).take(i + 1);
        assert(next.drop_last() =~= texts(uuids@).take(i as int));
        args.push("--uuid".to_owned());
        args.push(uuids[i].clone());
        assert(texts(args@) =~= texts(before).push("--uuid"@).push(uuids@[i as int]@));
        assert(texts(args@) =~= head + uuid_args(next));
        i = i + 1;
    }
    assert(texts(uuids@).take(i as int) =~= texts(uuids@));
    let ghost before = args@;
    if let Some(value) = value {
        args.push("--value".to_owned());
        args.push(value.to_owned());
        assert(texts(args@) =~= texts(before).push("--value"@).push(value@));
    }
    CommandStep::Run { args }
}

/// What is said of a command that has ended.
pub open spec fn command_words(label: Seq<char>, success: bool, message: Seq<char>) -> Seq<char> {
    if success {
        label + "完成"@
    } else if message.len() == 0 {
        label + "失败"@
    } else {
        label + "失败"@ + "："@ + message
    }
}

/// What is said of a command that has ended.
pub fn command_text(label: &str, success: bool, message: &str) -> (r: String)
    ensures
        r@ == command_words(label@, success, message@),
        success ==> r@ == label@ + "完成"@,
        !success && message@.len() == 0 ==> r@ == label@ + "失败"@,
        !success && message@.len() > 0 ==> r@ == label@ + "失败"@ + "："@ + message@,
{
    if success {
        label.to_owned().concat("完成")
    } else if message.unicode_len() == 0 {
        label.to_owned().concat("失败")
    } else {
        label.to_owned().concat("失败").concat("：").concat(message)
    }
}

/// A name that an asset can have: not empty, and in one directory.
pub open spec fn is_name(name: Seq<char>) -> bool {
    &&& name.len() > 0
    &&& !name.contains('/')
    &&& !name.contains('\\')
}

/// The name that an asset is to get, or why it cannot have it.
pub fn checked_name(name: &str) -> (r: Result<String, String>)
    ensures
        match r {
            Ok(name_given) => is_name(trimmed(name@)) && name_given@ == trimmed(name@),
            Err(why) => !is_name(trimmed(name@)) && why@ == "名称不能为空或含路径分隔符"@,
        },
        r is Ok <==> trimmed(name@).len() > 0 && forall|i: int|
            0 <= i < trimmed(name@).len() ==> #[trigger] trimmed(name@)[i] != '/' && trimmed(
                name@,
            )[i] != '\\',
{
    let given = trim(name);
    let chars = chars_of(given);
    let mut sound = chars.len() > 0;
    let mut i: usize = 0;
    while i < chars.len()
        invariant
            i <= chars@.len(),
            sound == (chars@.len() > 0 && !chars@.take(i as int).contains('/')
                && !chars@.take(i as int).contains('\\')),
        decreases chars@.len() - i,
    {
        let c = chars[i];
        proof {
            let before = chars@.take(i as int);
            let next = chars@.take(i + 1);
            assert(next =~= before.push(c));
            assert forall|x: char| #[trigger] next.contains(x) <==> before.contains(x)
                || x == c by {
                assert(next[i as int] == c);
                if before.contains(x) {
                    assert(next[before.index_of(x)] == x);
                }
                if next.contains(x) && x != c {
                    assert(before[next.index_of(x)] == x);
                }
            }
        }
        sound = sound && c != '/' && c != '\\';
        i = i + 1;
    }
    assert(chars@.take(i as int) =~= chars@);
    proof {
        if !is_name(chars@) && chars@.len() > 0 {
            let c = if chars@.contains('/') {
                '/'
            } else {
                '\\'
            };
            let k = choose|k: int| 0 <= k < chars@.len() && chars@[k] == c;
            assert(chars@[k] == c);
        }
        if is_name(chars@) {
            assert forall|i: int| 0 <= i < chars@.len() implies #[trigger] chars@[i] != '/'
                && chars@[i] != '\\' by {
                assert(chars@.contains(chars@[i]));
            }
        }
    }
    if sound {
        Ok(given.to_owned())
    } else {
        Err("名称不能为空或含路径分隔符".to_owned())
    }
}

/// Whether a click on an asset pastes it. The user has chosen whether one click does or
/// two; while several assets are being chosen, no click does.
pub fn click_pastes(double: bool, single_click_mode: bool, multi_select: bool) -> (r: bool)
    ensures
        r == pastes(double, single_click_mode, multi_select),
        multi_select ==> !r,
        !multi_select && single_click_mode ==> r == !double,
        !multi_select && !single_click_mode ==> r == double,
{
    !multi_select && double != single_click_mode
}

pub open spec fn pastes(double: bool, single_click_mode: bool, multi_select: bool) -> bool {
    !multi_select && double != single_click_mode
}

/// Of one click and two, exactly one pastes, and neither does while several assets are being
/// chosen: a double click never pastes twice.
pub proof fn one_kind_of_click_pastes(single_click_mode: bool, multi_select: bool)
    ensures
        multi_select ==> !pastes(false, single_click_mode, multi_select) && !pastes(
            true,
            single_click_mode,
            multi_select,
        ),
        !multi_select ==> pastes(false, single_click_mode, multi_select) != pastes(
            true,
            single_click_mode,
            multi_select,
        ),
{
}

/// What an item of the menu comes to.
#[derive(Debug, Clone, PartialEq, Eq)]
pub enum MenuStep {
    Nothing,
    /// The asset goes to the clipboard, and nowhere else.
    Copy { id: AssetId },
    /// The user is asked for a category.
    AskCategory,
    /// The user is asked for a name.
    AskName { id: AssetId },
    ShowProperties { id: AssetId },
    /// The assets are hidden at once, and go to the trash.
    Trash { ids: Vec<AssetId> },
}

/// What an item of the menu comes to: those for one asset take the first.
pub open spec fn menu_step(code: i32, targets: Seq<AssetId>, r: MenuStep) -> bool {
    match menu_action_of(code) {
        None => r is Nothing,
        Some(action) => if targets.len() == 0 {
            r is Nothing
        } else {
            match action {
                MenuAction::Copy => r == (MenuStep::Copy { id: targets[0] }),
                MenuAction::MoveToCategory => r is AskCategory,
                MenuAction::Rename => r == (MenuStep::AskName { id: targets[0] }),
                MenuAction::Properties => r == (MenuStep::ShowProperties { id: targets[0] }),
                MenuAction::Delete => r matches MenuStep::Trash { ids } && ids@ == targets,
            }
        },
    }
}

/// Decides what an item of the menu comes to.
pub fn plan_menu(code: i32, targets: Vec<AssetId>) -> (r: MenuStep)
    ensures
        menu_step(code, targets@, r),
        targets@.len() == 0 || code < 0 || code > 4 <==> r is Nothing,
        targets@.len() > 0 && code == 0 ==> r == (MenuStep::Copy { id: targets@[0] }),
        targets@.len() > 0 && code == 1 ==> r is AskCategory,
        targets@.len() > 0 && code == 2 ==> r == (MenuStep::AskName { id: targets@[0] }),
        targets@.len() > 0 && code == 3 ==> r == (MenuStep::ShowProperties { id: targets@[0] }),
        targets@.len() > 0 && code == 4 ==> (r matches MenuStep::Trash { ids } && ids@ == targets@),
{
    match menu_action(code) {
        None => MenuStep::Nothing,
        Some(action) => if targets.len() == 0 {
            MenuStep::Nothing
        } else {
            match action {
                MenuAction::Copy => MenuStep::Copy { id: targets[0] },
                MenuAction::MoveToCategory => MenuStep::AskCategory,
                MenuAction::Rename => MenuStep::AskName { id: targets[0] },
                MenuAction::Properties => MenuStep::ShowProperties { id: targets[0] },
                MenuAction::Delete => MenuStep::Trash { ids: targets },
            }
        },
    }
}

/// Something that is done only when it is asked for twice.
#[derive(Debug, Clone, Copy, PartialEq, Eq, Structural)]
pub struct TwoStep {
    armed: bool,
}

impl TwoStep {
    /// It was asked for once.
    pub closed spec fn spec_armed(&self) -> bool {
        self.armed
    }

    pub fn new() -> (r: TwoStep)
        ensures
            !r.spec_armed(),
    {
        TwoStep { armed: false }
    }

    pub fn armed(&self) -> (r: bool)
        ensures
            r == self.spec_armed(),
    {
        self.armed
    }

    /// Asks for it. Whether it is done now: every second time.
    pub fn press(&mut self) -> (r: bool)
        ensures
            r == old(self).spec_armed(),
            final(self).spec_armed() == !old(self).spec_armed(),
    {
        let fires = self.armed;
        self.armed = !self.armed;
        fires
    }
}

/// What is open above the assets.
#[derive(Debug, Clone, Copy, PartialEq, Eq, Structural)]
pub struct Overlays {
    pub classify: bool,
    pub update: bool,
    pub update_downloading: bool,
    pub import_menu: bool,
    pub scope_menu: bool,
    pub context_menu: bool,
    pub move_menu: bool,
    pub rename: bool,
    pub properties: bool,
    pub target_rename: bool,
    pub settings: bool,
    pub multi_select: bool,
}

/// What the escape key does.
#[derive(Debug, Clone, Copy, PartialEq, Eq, Structural)]
pub enum EscapeAction {
    Nothing,
    CloseClassify,
    /// An update that is being downloaded is cancelled first: it would end the application
    /// without a word.
    CloseUpdate { cancel_download: bool },
    CloseImportMenu,
    CloseScopeMenu,
    CloseContextMenu,
    CloseMoveMenu,
    CloseRename,
    CloseProperties,
    CloseTargetRename,
    CloseSettings,
    LeaveMultiSelect,
}

impl Overlays {
    /// Nothing is open.
    pub open spec fn nothing(&self) -> bool {
        !self.classify && !self.update && !self.import_menu && !self.scope_menu
            && !self.context_menu && !self.move_menu && !self.rename && !self.properties
            && !self.target_rename && !self.settings && !self.multi_select
    }

    /// What is open once the action is done.
    pub open spec fn after(&self, action: EscapeAction) -> Overlays {
        match action {
            EscapeAction::Nothing => *self,
            EscapeAction::CloseClassify => Overlays { classify: false, ..*self },
            EscapeAction::CloseUpdate { cancel_download } => Overlays {
                update: false,
                update_downloading: self.update_downloading && !cancel_download,
                ..*self
            },
            EscapeAction::CloseImportMenu => Overlays { import_menu: false, ..*self },
            EscapeAction::CloseScopeMenu => Overlays { scope_menu: false, ..*self },
            EscapeAction::CloseContextMenu => Overlays { context_menu: false, ..*self },
            EscapeAction::CloseMoveMenu => Overlays { move_menu: false, ..*self },
            EscapeAction::CloseRename => Overlays { rename: false, ..*self },
            EscapeAction::CloseProperties => Overlays { properties: false, ..*self },
            EscapeAction::CloseTargetRename => Overlays { target_rename: false, ..*self },
            EscapeAction::CloseSettings => Overlays { settings: false, ..*self },
            EscapeAction::LeaveMultiSelect => Overlays { multi_select: false, ..*self },
        }
    }

    /// How many things are open.
    pub open spec fn open_count(&self) -> int {
        one(self.classify) + one(self.update) + one(self.import_menu) + one(self.scope_menu) + one(
            self.context_menu,
        ) + one(self.move_menu) + one(self.rename) + one(self.properties) + one(self.target_rename)
            + one(self.settings) + one(self.multi_select)
    }

    /// What the escape key does: it closes what is on top.
    pub open spec fn top(&self) -> EscapeAction {
        if self.classify {
            EscapeAction::CloseClassify
        } else if self.update {
            EscapeAction::CloseUpdate { cancel_download: self.update_downloading }
        } else if self.import_menu {
            EscapeAction::CloseImportMenu
        } else if self.scope_menu {
            EscapeAction::CloseScopeMenu
        } else if self.context_menu {
            EscapeAction::CloseContextMenu
        } else if self.move_menu {
            EscapeAction::CloseMoveMenu
        } else if self.rename {
            EscapeAction::CloseRename
        } else if self.properties {
            EscapeAction::CloseProperties
        } else if self.target_rename {
            EscapeAction::CloseTargetRename
        } else if self.settings {
            EscapeAction::CloseSettings
        } else if self.multi_select {
            EscapeAction::LeaveMultiSelect
        } else {
            EscapeAction::Nothing
        }
    }

    /// What the escape key does.
    pub fn escape(&self) -> (r: EscapeAction)
        ensures
            r == self.top(),
            self.classify <==> r == EscapeAction::CloseClassify,
            self.update && !self.classify <==> r is CloseUpdate,
            r matches EscapeAction::CloseUpdate { cancel_download } ==> cancel_download
                == self.update_downloading,
            r is CloseImportMenu ==> self.import_menu && !self.classify && !self.update,
            r is CloseScopeMenu ==> self.scope_menu && !self.classify && !self.update
                && !self.import_menu,
            r is CloseContextMenu ==> self.context_menu && !self.classify && !self.update
                && !self.import_menu && !self.scope_menu,
            r is CloseMoveMenu ==> self.move_menu && !self.classify && !self.update
                && !self.import_menu && !self.scope_menu && !self.context_menu,
            r is CloseRename ==> self.rename && !self.classify && !self.update && !self.import_menu
                && !self.scope_menu && !self.context_menu && !self.move_menu,
            r is CloseProperties ==> self.properties && !self.classify && !self.update
                && !self.import_menu && !self.scope_menu && !self.context_menu && !self.move_menu
                && !self.rename,
            r is CloseTargetRename ==> self.target_rename && !self.properties && !self.rename
                && !self.classify && !self.update && !self.import_menu && !self.scope_menu
                && !self.context_menu && !self.move_menu,
            r is CloseSettings ==> self.settings && !self.target_rename && !self.properties
                && !self.rename && !self.classify && !self.update && !self.import_menu
                && !self.scope_menu && !self.context_menu && !self.move_menu,
            r is LeaveMultiSelect ==> self.multi_select && !self.settings && !self.target_rename
                && !self.properties && !self.rename && !self.classify && !self.update
                && !self.import_menu && !self.scope_menu && !self.context_menu && !self.move_menu,
            r is Nothing <==> !(self.classify || self.update || self.import_menu || self.scope_menu
                || self.context_menu || self.move_menu || self.rename || self.properties
                || self.target_rename || self.settings || self.multi_select),
    {
        if self.classify {
            EscapeAction::CloseClassify
        } else if self.update {
            EscapeAction::CloseUpdate { cancel_download: self.update_downloading }
        } else if self.import_menu {
            EscapeAction::CloseImportMenu
        } else if self.scope_menu {
            EscapeAction::CloseScopeMenu
        } else if self.context_menu {
            EscapeAction::CloseContextMenu
        } else if self.move_menu {
            EscapeAction::CloseMoveMenu
        } else if self.rename {
            EscapeAction::CloseRename
        } else if self.properties {
            EscapeAction::CloseProperties
        } else if self.target_rename {
            EscapeAction::CloseTargetRename
        } else if self.settings {
            EscapeAction::CloseSettings
        } else if self.multi_select {
            EscapeAction::LeaveMultiSelect
        } else {
            EscapeAction::Nothing
        }
    }
}

impl Overlays {
    /// What a click beside everything leaves open: the menus close, the windows that hold
    /// what the user has entered stay.
    pub open spec fn without_menus(&self) -> Overlays {
        Overlays {
            import_menu: false,
            scope_menu: false,
            context_menu: false,
            move_menu: false,
            ..*self
        }
    }

    /// A click beside everything.
    pub fn dismiss(&self) -> (r: Overlays)
        ensures
            r == self.without_menus(),
            !r.import_menu && !r.scope_menu && !r.context_menu && !r.move_menu,
            r.classify == self.classify && r.update == self.update && r.update_downloading
                == self.update_downloading && r.rename == self.rename && r.properties
                == self.properties && r.target_rename == self.target_rename && r.settings
                == self.settings && r.multi_select == self.multi_select,
    {
        Overlays {
            import_menu: false,
            scope_menu: false,
            context_menu: false,
            move_menu: false,
            ..*self
        }
    }
}

/// A click beside everything loses nothing that the user has entered or chosen, and leaves no
/// menu open.
pub proof fn clicks_beside_lose_nothing(overlays: Overlays)
    ensures
        ({
            let left = overlays.without_menus();
            &&& left.classify == overlays.classify
            &&& left.update == overlays.update
            &&& left.update_downloading == overlays.update_downloading
            &&& left.rename == overlays.rename
            &&& left.properties == overlays.properties
            &&& left.target_rename == overlays.target_rename
            &&& left.settings == overlays.settings
            &&& left.multi_select == overlays.multi_select
            &&& !left.import_menu && !left.scope_menu && !left.context_menu && !left.move_menu
        }),
{
}

pub open spec fn one(open: bool) -> int {
    if open {
        1
    } else {
        0
    }
}

/// The escape key closes one thing at a time, as long as anything is open.
pub proof fn escape_closes_one_thing(overlays: Overlays)
    ensures
        overlays.nothing() <==> overlays.top() is Nothing,
        !overlays.nothing() ==> overlays.after(overlays.top()).open_count() == overlays.open_count()
            - 1,
{
}

/// No download goes on behind a window that the escape key has closed.
pub proof fn escape_leaves_no_download(overlays: Overlays)
    requires
        overlays.update_downloading ==> overlays.update,
    ensures
        overlays.after(overlays.top()).update_downloading ==> overlays.after(
            overlays.top(),
        ).update,
{
}

/// Each asset that a command is about stands in its arguments, behind its flag.
pub proof fn every_asset_is_named(uuids: Seq<Seq<char>>, i: int)
    requires
        0 <= i < uuids.len(),
    ensures
        uuid_args(uuids).len() == 2 * uuids.len(),
        uuid_args(uuids)[2 * i] == "--uuid"@,
        uuid_args(uuids)[2 * i + 1] == uuids[i],
    decreases uuids.len(),
{
    let rest = uuids.drop_last();
    uuid_args_come_in_pairs(rest);
    if i < rest.len() {
        every_asset_is_named(rest, i);
    }
}

proof fn uuid_args_come_in_pairs(uuids: Seq<Seq<char>>)
    ensures
        uuid_args(uuids).len() == 2 * uuids.len(),
    decreases uuids.len(),
{
    if uuids.len() > 0 {
        uuid_args_come_in_pairs(uuids.drop_last());
    }
}

/// Assets that the library does not know are left out, and the others keep their order.
pub proof fn unknown_assets_are_left_out(found: Seq<Option<String>>, uuid: String)
    ensures
        present(Seq::<Option<String>>::empty()).len() == 0,
        present(found.push(Some(uuid))) == present(found).push(uuid@),
        present(found.push(None)) == present(found),
{
    assert(found.push(Some(uuid)).drop_last() =~= found);
    assert(found.push(None).drop_last() =~= found);
}

/// A command names its action, the library, each asset, and at the end a value where there is
/// one.
pub proof fn commands_name_action_library_assets_and_value(
    action: Seq<char>,
    root: Seq<char>,
    uuids: Seq<Seq<char>>,
    value: Seq<char>,
    i: int,
)
    ensures
        command_args(action, root, uuids, None).len() == 4 + 2 * uuids.len(),
        command_args(action, root, uuids, None)[0] == "--cmd"@,
        command_args(action, root, uuids, None)[1] == action,
        command_args(action, root, uuids, None)[2] == "--library"@,
        command_args(action, root, uuids, None)[3] == root,
        0 <= i < uuids.len() ==> command_args(action, root, uuids, None)[4 + 2 * i] == "--uuid"@
            && command_args(action, root, uuids, None)[5 + 2 * i] == uuids[i],
        command_args(action, root, uuids, Some(value)) == command_args(
            action,
            root,
            uuids,
            None,
        ).push("--value"@).push(value),
{
    uuid_args_come_in_pairs(uuids);
    if 0 <= i < uuids.len() {
        every_asset_is_named(uuids, i);
        let args = command_args(action, root, uuids, None);
        assert(args[4 + 2 * i] == uuid_args(uuids)[2 * i]);
        assert(args[5 + 2 * i] == uuid_args(uuids)[2 * i + 1]);
    }
}

/// What the escape key closes is closed, and all else stays open.
pub proof fn escape_closes_what_it_names(overlays: Overlays, cancel: bool)
    ensures
        overlays.after(EscapeAction::Nothing) == overlays,
        overlays.after(EscapeAction::CloseClassify) == (Overlays { classify: false, ..overlays }),
        overlays.after(EscapeAction::CloseUpdate { cancel_download: cancel }) == (Overlays {
            update: false,
            update_downloading: overlays.update_downloading && !cancel,
            ..overlays
        }),
        overlays.after(EscapeAction::CloseImportMenu) == (Overlays {
            import_menu: false,
            ..overlays
        }),
        overlays.after(EscapeAction::CloseScopeMenu) == (Overlays { scope_menu: false, ..overlays }),
        overlays.after(EscapeAction::CloseContextMenu) == (Overlays {
            context_menu: false,
            ..overlays
        }),
        overlays.after(EscapeAction::CloseMoveMenu) == (Overlays { move_menu: false, ..overlays }),
        overlays.after(EscapeAction::CloseRename) == (Overlays { rename: false, ..overlays }),
        overlays.after(EscapeAction::CloseProperties) == (Overlays { properties: false, ..overlays }),
        overlays.after(EscapeAction::CloseTargetRename) == (Overlays {
            target_rename: false,
            ..overlays
        }),
        overlays.after(EscapeAction::CloseSettings) == (Overlays { settings: false, ..overlays }),
        overlays.after(EscapeAction::LeaveMultiSelect) == (Overlays {
            multi_select: false,
            ..overlays
        }),
        one(true) == 1,
        one(false) == 0,
{
}

} // verus!
