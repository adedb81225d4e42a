//! The trash: where the files of an asset lie, and what moves them.
//!
//! The store says whether an asset is deleted; its directory lies under `objects` while
//! it is live and under `trash` while it is deleted. A crash between the two steps
//! leaves them at odds, which is mended when the library is next opened.

use vstd::prelude::*;

use crate::fields::texts;
use crate::library::LibraryError;

verus! {

/// The directory of what was deleted, beside `objects` and `thumbs`.
pub const TRASH_DIR: &'static str = "trash";

/// The directory of a deleted asset, from the root of the library.
pub fn trash_dir(uuid: &str) -> (r: String)
    ensures
        r@ == TRASH_DIR@ + "/"@ + uuid@,
        r@ == "trash"@ + "/"@ + uuid@,
{
    TRASH_DIR.to_owned().concat("/").concat(uuid)
}

/// What the store says of an asset.
#[derive(Debug, Clone, Copy, PartialEq, Eq, Structural)]
pub enum RowState {
    Missing,
    Live,
    Deleted,
}

/// Where an asset stands: its row, and whether it has a directory in either place.
#[derive(Debug, Clone, Copy, PartialEq, Eq, Structural)]
pub struct Placement {
    pub row: RowState,
    pub in_objects: bool,
    pub in_trash: bool,
}

impl Placement {
    /// Row and directory agree.
    pub open spec fn settled(self) -> bool {
        match self.row {
            RowState::Missing => !self.in_trash,
            RowState::Live => !self.in_trash,
            RowState::Deleted => !self.in_objects,
        }
    }

    /// A deleted asset with both directories: which of them is the original cannot be
    /// told.
    pub open spec fn ambiguous(self) -> bool {
        self.row == RowState::Deleted && self.in_objects && self.in_trash
    }
}

/// What deleting an asset comes to, once its row has been marked.
#[derive(Debug, Clone, Copy, PartialEq, Eq, Structural)]
pub enum MoveStep {
    /// It was deleted before: counts as done.
    Already,
    /// There is no such asset: does not count.
    Absent,
    /// A directory lies in the trash already: unmark the row and report.
    Refuse,
    /// Move the directory; if that fails unmark the row and report.
    Move,
    /// There is no directory to move.
    MarkOnly,
}

/// The step for an asset that stood as `before` when its row was marked.
pub open spec fn move_step(before: Placement) -> MoveStep {
    match before.row {
        RowState::Missing => MoveStep::Absent,
        RowState::Deleted => MoveStep::Already,
        RowState::Live => if before.in_trash {
            MoveStep::Refuse
        } else if before.in_objects {
            MoveStep::Move
        } else {
            MoveStep::MarkOnly
        },
    }
}

/// Where an asset stands after the step; `moved` says whether the directory could be
/// moved.
pub open spec fn after_move(before: Placement, moved: bool) -> Placement {
    match move_step(before) {
        MoveStep::Move => if moved {
            Placement { row: RowState::Deleted, in_objects: false, in_trash: true }
        } else {
            before
        },
        MoveStep::MarkOnly => Placement { row: RowState::Deleted, ..before },
        _ => before,
    }
}

/// Decides how an asset goes to the trash. `newly_marked` says whether marking its row
/// changed anything, `deleted` whether the row is marked now.
pub fn plan_move(newly_marked: bool, deleted: bool, in_objects: bool, in_trash: bool) -> (r:
    MoveStep)
    ensures
        newly_marked ==> r == move_step(
            Placement { row: RowState::Live, in_objects, in_trash },
        ),
        !newly_marked && deleted ==> r == MoveStep::Already,
        !newly_marked && !deleted ==> r == MoveStep::Absent,
        newly_marked && in_trash ==> r == MoveStep::Refuse,
        newly_marked && !in_trash && in_objects ==> r == MoveStep::Move,
        newly_marked && !in_trash && !in_objects ==> r == MoveStep::MarkOnly,
{
    if !newly_marked {
        if deleted {
            MoveStep::Already
        } else {
            MoveStep::Absent
        }
    } else if in_trash {
        MoveStep::Refuse
    } else if in_objects {
        MoveStep::Move
    } else {
        MoveStep::MarkOnly
    }
}

/// What a step comes to once it was carried out: whether it counts, or why it failed.
pub fn move_outcome(step: MoveStep, uuid: &str, failure: Option<&str>) -> (r: Result<
    bool,
    LibraryError,
>)
    ensures
        match step {
            MoveStep::Already => r == Ok::<bool, LibraryError>(true),
            MoveStep::Absent => r == Ok::<bool, LibraryError>(false),
            MoveStep::MarkOnly => r == Ok::<bool, LibraryError>(true),
            MoveStep::Refuse => r matches Err(LibraryError::Trash { uuid: u, reason }) && u@
                == uuid@ && reason@ == "objects 与 trash 同时存在，需启动对账"@,
            MoveStep::Move => match failure {
                None => r == Ok::<bool, LibraryError>(true),
                Some(text) => r matches Err(LibraryError::Trash { uuid: u, reason }) && u@ == uuid@
                    && reason@ == text@,
            },
        },
{
    match step {
        MoveStep::Already => Ok(true),
        MoveStep::Absent => Ok(false),
        MoveStep::MarkOnly => Ok(true),
        MoveStep::Refuse => Err(
            LibraryError::Trash {
                uuid: uuid.to_owned(),
                reason: "objects 与 trash 同时存在，需启动对账".to_owned(),
            },
        ),
        MoveStep::Move => match failure {
            None => Ok(true),
            Some(text) => Err(
                LibraryError::Trash { uuid: uuid.to_owned(), reason: text.to_owned() },
            ),
        },
    }
}

/// A step that leaves the row of a live asset unmarked: refused, or the directory could
/// not be moved.
pub open spec fn falls_back(step: MoveStep, failed: bool) -> bool {
    step == MoveStep::Refuse || (step == MoveStep::Move && failed)
}

/// A step after which the asset lies in the trash.
pub open spec fn counts(step: MoveStep, failed: bool) -> bool {
    !falls_back(step, failed) && step != MoveStep::Absent
}

/// Whether a step took a live asset to the trash: its hash is then no longer compared
/// with what comes in.
pub fn newly_trashed(step: MoveStep, failed: bool) -> (r: bool)
    ensures
        r == (counts(step, failed) && step != MoveStep::Already),
        r == (step == MoveStep::MarkOnly || (step == MoveStep::Move && !failed)),
{
    match step {
        MoveStep::MarkOnly => true,
        MoveStep::Move => !failed,
        _ => false,
    }
}

/// The course of deleting several assets, one after the other. What fails is noted, and
/// the next one follows.
#[derive(Debug, Clone, PartialEq, Eq)]
pub struct MoveRun {
    uuids: Vec<String>,
    at: usize,
    moved: usize,
    failures: Vec<LibraryError>,
}

impl MoveRun {
    /// The assets to delete.
    pub closed spec fn uuids(self) -> Seq<String> {
        self.uuids@
    }

    /// How many of them are settled.
    pub closed spec fn at(self) -> nat {
        self.at as nat
    }

    /// How many of those lie in the trash.
    pub closed spec fn moved(self) -> nat {
        self.moved as nat
    }

    /// What failed, in the order it did.
    pub closed spec fn failures(self) -> Seq<LibraryError> {
        self.failures@
    }

    pub open spec fn wf(self) -> bool {
        &&& self.at() <= self.uuids().len()
        &&& self.moved() <= self.at()
    }

    /// Nothing is settled yet.
    pub fn start(uuids: Vec<String>) -> (r: MoveRun)
        ensures
            r.wf(),
            r.uuids() == uuids@,
            r.at() == 0,
            r.moved() == 0,
            r.failures() == Seq::<LibraryError>::empty(),
    {
        MoveRun { uuids, at: 0, moved: 0, failures: Vec::new() }
    }

    /// The asset whose turn it is; `None` once all are settled.
    pub fn current(&self) -> (r: Option<&String>)
        requires
            self.wf(),
        ensures
            r is Some <==> self.at() < self.uuids().len(),
            r matches Some(uuid) ==> *uuid == self.uuids()[self.at() as int],
    {
        if self.at < self.uuids.len() {
            Some(&self.uuids[self.at])
        } else {
            None
        }
    }

    /// A step was carried out; `failure` says why the directory could not be moved. Says
    /// whether the row of the asset is to be unmarked. Whatever came back, the turn passes
    /// on.
    pub fn asset_settled(&mut self, step: MoveStep, failure: Option<&str>) -> (unmark: bool)
        requires
            old(self).wf(),
            old(self).at() < old(self).uuids().len(),
        ensures
            final(self).wf(),
            final(self).uuids() == old(self).uuids(),
            final(self).at() == old(self).at() + 1,
            unmark == falls_back(step, failure is Some),
            unmark == (step == MoveStep::Refuse || (step == MoveStep::Move && failure is Some)),
            step == MoveStep::Already || step == MoveStep::MarkOnly || (step == MoveStep::Move
                && failure is None) <==> final(self).moved() == old(self).moved() + 1,
            final(self).moved() == old(self).moved() + (if counts(step, failure is Some) {
                1int
            } else {
                0int
            }),
            unmark ==> {
                &&& final(self).failures().len() == old(self).failures().len() + 1
                &&& final(self).failures().drop_last() == old(self).failures()
                &&& final(self).failures().last() matches LibraryError::Trash { uuid, reason }
                    && uuid@ == old(self).uuids()[old(self).at() as int]@ && reason@ == match (
                    step,
                    failure,
                ) {
                    (MoveStep::Move, Some(text)) => text@,
                    _ => "objects 与 trash 同时存在，需启动对账"@,
                }
            },
            !unmark ==> final(self).failures() == old(self).failures(),
    {
        let outcome = move_outcome(step, self.uuids[self.at].as_str(), failure);
        assert(self.at < self.uuids.len());
        self.at = self.at + 1;
        match outcome {
            Ok(counted) => {
                if counted {
                    self.moved = self.moved + 1;
                }
                false
            },
            Err(error) => {
                let ghost before = self.failures@;
                self.failures.push(error);
                assert(self.failures@.drop_last() =~= before);
                true
            },
        }
    }

    /// The store could not say how the asset stands: it does not count, and the turn
    /// passes on.
    pub fn asset_unknown(&mut self, error: LibraryError)
        requires
            old(self).wf(),
            old(self).at() < old(self).uuids().len(),
        ensures
            final(self).wf(),
            final(self).uuids() == old(self).uuids(),
            final(self).at() == old(self).at() + 1,
            final(self).moved() == old(self).moved(),
            final(self).failures() == old(self).failures().push(error),
    {
        assert(self.at < self.uuids.len());
        self.at = self.at + 1;
        self.failures.push(error);
    }

    /// The store failed after the asset was settled: noted, and nothing else.
    pub fn noted(&mut self, error: LibraryError)
        requires
            old(self).wf(),
        ensures
            final(self).wf(),
            final(self).uuids() == old(self).uuids(),
            final(self).at() == old(self).at(),
            final(self).moved() == old(self).moved(),
            final(self).failures() == old(self).failures().push(error),
    {
        self.failures.push(error);
    }

    /// What failed.
    pub fn failed(&self) -> (r: &Vec<LibraryError>)
        ensures
            r@ == self.failures(),
    {
        &self.failures
    }

    /// How many assets lie in the trash now; the first failure where there is none of them.
    pub fn finish(self) -> (r: Result<usize, LibraryError>)
        ensures
            r is Err <==> self.moved() == 0 && self.failures().len() > 0,
            r matches Ok(moved) ==> moved == self.moved(),
            r matches Err(error) ==> error == self.failures()[0],
    {
        let mut failures = self.failures;
        if self.moved == 0 && failures.len() > 0 {
            Err(failures.remove(0))
        } else {
            Ok(self.moved)
        }
    }
}

/// Where all assets stand after those in `uuids` were deleted one after the other;
/// `went` says of each whether its directory could be moved.
pub open spec fn after_moves(
    world: Map<Seq<char>, Placement>,
    uuids: Seq<Seq<char>>,
    went: Seq<bool>,
) -> Map<Seq<char>, Placement>
    decreases uuids.len(),
{
    if uuids.len() == 0 {
        world
    } else {
        let before = after_moves(world, uuids.drop_last(), went.drop_last());
        before.insert(uuids.last(), after_move(before[uuids.last()], went.last()))
    }
}

/// What restoring an asset comes to.
#[derive(Debug, Clone, Copy, PartialEq, Eq, Structural)]
pub enum RestoreStep {
    /// It is not deleted: does not count.
    NotDeleted,
    /// Move the directory back, then unmark the row.
    Move,
    /// There is no directory: unmark the row.
    UnmarkOnly,
}

pub open spec fn restore_step(before: Placement) -> RestoreStep {
    if before.row != RowState::Deleted {
        RestoreStep::NotDeleted
    } else if before.in_trash {
        RestoreStep::Move
    } else {
        RestoreStep::UnmarkOnly
    }
}

/// Where an asset stands after the step; a directory that cannot be moved back leaves
/// the row marked.
pub open spec fn after_restore(before: Placement, moved: bool) -> Placement {
    match restore_step(before) {
        RestoreStep::NotDeleted => before,
        RestoreStep::Move => if moved {
            Placement { row: RowState::Live, in_objects: true, in_trash: false }
        } else {
            before
        },
        RestoreStep::UnmarkOnly => Placement { row: RowState::Live, ..before },
    }
}

/// Decides how an asset comes back from the trash.
pub fn plan_restore(deleted: bool, in_trash: bool) -> (r: RestoreStep)
    ensures
        forall|before: Placement|
            (before.row == RowState::Deleted) == deleted && before.in_trash == in_trash
                ==> #[trigger] restore_step(before) == r,
        !deleted <==> r == RestoreStep::NotDeleted,
        deleted && in_trash <==> r == RestoreStep::Move,
        deleted && !in_trash <==> r == RestoreStep::UnmarkOnly,
{
    if !deleted {
        RestoreStep::NotDeleted
    } else if in_trash {
        RestoreStep::Move
    } else {
        RestoreStep::UnmarkOnly
    }
}

/// Where an asset stands after it was purged: nowhere.
pub open spec fn after_purge(before: Placement) -> Placement {
    Placement { row: RowState::Missing, in_objects: false, in_trash: false }
}

/// What mends a row and a directory that are at odds.
#[derive(Debug, Clone, Copy, PartialEq, Eq, Structural)]
pub enum Repair {
    Nothing,
    /// The row is marked, the directory was not moved yet.
    MoveToTrash,
    /// The row is live, the directory was moved too early or not moved back.
    MoveBack,
    /// The row is live and has its directory: the one in the trash is a remnant.
    DropTrashCopy,
    /// There is no row: the directory is a remnant.
    DropOrphan,
}

/// What is done about an asset when the library is opened.
pub open spec fn repair_for(at: Placement) -> Repair {
    match at.row {
        RowState::Deleted => if at.in_objects && !at.in_trash {
            Repair::MoveToTrash
        } else {
            Repair::Nothing
        },
        RowState::Live => if !at.in_trash {
            Repair::Nothing
        } else if at.in_objects {
            Repair::DropTrashCopy
        } else {
            Repair::MoveBack
        },
        RowState::Missing => if at.in_trash {
            Repair::DropOrphan
        } else {
            Repair::Nothing
        },
    }
}

/// Where an asset stands after a repair.
pub open spec fn repaired(at: Placement) -> Placement {
    match repair_for(at) {
        Repair::Nothing => at,
        Repair::MoveToTrash => Placement { in_objects: false, in_trash: true, ..at },
        Repair::MoveBack => Placement { in_objects: true, in_trash: false, ..at },
        Repair::DropTrashCopy => Placement { in_trash: false, ..at },
        Repair::DropOrphan => Placement { in_trash: false, ..at },
    }
}

/// Decides the repair for an asset.
pub fn plan_repair(at: Placement) -> (r: Repair)
    ensures
        r == repair_for(at),
        r == Repair::MoveToTrash <==> at.row == RowState::Deleted && at.in_objects && !at.in_trash,
        r == Repair::MoveBack <==> at.row == RowState::Live && at.in_trash && !at.in_objects,
        r == Repair::DropTrashCopy <==> at.row == RowState::Live && at.in_trash && at.in_objects,
        r == Repair::DropOrphan <==> at.row == RowState::Missing && at.in_trash,
{
    match at.row {
        RowState::Deleted => if at.in_objects && !at.in_trash {
            Repair::MoveToTrash
        } else {
            Repair::Nothing
        },
        RowState::Live => if !at.in_trash {
            Repair::Nothing
        } else if at.in_objects {
            Repair::DropTrashCopy
        } else {
            Repair::MoveBack
        },
        RowState::Missing => if at.in_trash {
            Repair::DropOrphan
        } else {
            Repair::Nothing
        },
    }
}

/// How many assets need a repair.
pub open spec fn repairs_needed(places: Seq<Placement>) -> nat
    decreases places.len(),
{
    if places.len() == 0 {
        0
    } else {
        repairs_needed(places.drop_last()) + if repair_for(places.last()) == Repair::Nothing {
            0nat
        } else {
            1
        }
    }
}

/// The repairs for all assets, with how many there are.
pub fn plan_repairs(places: &Vec<Placement>) -> (r: (Vec<Repair>, usize))
    ensures
        r.0@.len() == places@.len(),
        forall|i: int| 0 <= i < places@.len() ==> #[trigger] r.0@[i] == repair_for(places@[i]),
        r.1 == repairs_needed(places@),
        r.1 == r.0@.filter(|repair: Repair| repair != Repair::Nothing).len(),
{
    let mut plan: Vec<Repair> = Vec::new();
    let mut fixed: usize = 0;
    let mut i: usize = 0;
    proof {
        reveal(Seq::filter);
    }
    assert(places@.take(0) =~= Seq::<Placement>::empty());
    while i < places.len()
        invariant
            i <= places@.len(),
            plan@.len() == i,
            forall|k: int| 0 <= k < i ==> #[trigger] plan@[k] == repair_for(places@[k]),
            fixed == repairs_needed(places@.take(i as int)),
            fixed <= i,
            fixed == plan@.filter(|repair: Repair| repair != Repair::Nothing).len(),
        decreases places@.len() - i,
    {
        let repair = plan_repair(places[i]);
        proof {
            assert(places@.take(i + 1).drop_last() =~= places@.take(i as int));
        }
        if repair != Repair::Nothing {
            fixed = fixed + 1;
        }
        proof {
            let wanted = |repair: Repair| repair != Repair::Nothing;
            reveal(Seq::filter);
            assert(plan@.push(repair).drop_last() =~= plan@);
        }
        plan.push(repair);
        i = i + 1;
    }
    assert(places@.take(places@.len() as int) =~= places@);
    (plan, fixed)
}

/// The uuids that the trash holds, without repetition, in the order first given.
///
/// Repairs look at the assets that the store has marked and at the directories in the
/// trash; an asset may be among both.
pub fn assets_to_check(marked: &Vec<String>, in_trash: &Vec<String>) -> (r: Vec<String>)
    ensures
        forall|uuid: Seq<char>| #[trigger]
            named_in(r@, uuid) <==> named_in(marked@, uuid) || named_in(in_trash@, uuid),
        forall|i: int, j: int| 0 <= i < j < r@.len() ==> #[trigger] r@[i]@ != #[trigger] r@[j]@,
        texts(r@) == each_once(each_once(Seq::empty(), texts(marked@)), texts(in_trash@)),
{
    let mut out: Vec<String> = Vec::new();
    assert(texts(out@) =~= Seq::empty());
    add_new(&mut out, marked);
    add_new(&mut out, in_trash);
    out
}

/// `known`, and behind it the texts of `list` that are not there yet, in their order.
pub open spec fn each_once(known: Seq<Seq<char>>, list: Seq<Seq<char>>) -> Seq<Seq<char>>
    decreases list.len(),
{
    if list.len() == 0 {
        known
    } else {
        let before = each_once(known, list.drop_last());
        if before.contains(list.last()) {
            before
        } else {
            before.push(list.last())
        }
    }
}

/// `uuid` is one of `list`.
pub open spec fn named_in(list: Seq<String>, uuid: Seq<char>) -> bool {
    exists|i: int| 0 <= i < list.len() && #[trigger] list[i]@ == uuid
}

fn holds(list: &Vec<String>, text: &String) -> (r: bool)
    ensures
        r == named_in(list@, text@),
{
    let mut i: usize = 0;
    while i < list.len()
        invariant
            i <= list@.len(),
            forall|k: int| 0 <= k < i ==> #[trigger] list@[k]@ != text@,
        decreases list@.len() - i,
    {
        if list[i] == *text {
            return true;
        }
        i = i + 1;
    }
    false
}

fn add_new(out: &mut Vec<String>, list: &Vec<String>)
    requires
        forall|i: int, j: int|
            0 <= i < j < old(out)@.len() ==> #[trigger] old(out)@[i]@ != #[trigger] old(out)@[j]@,
    ensures
        forall|uuid: Seq<char>| #[trigger]
            named_in(final(out)@, uuid) <==> named_in(old(out)@, uuid) || named_in(list@, uuid),
        forall|i: int, j: int|
            0 <= i < j < final(out)@.len() ==> #[trigger] final(out)@[i]@ != #[trigger] final(
                out)@[j]@,
        texts(final(out)@) == each_once(texts(old(out)@), texts(list@)),
{
    let mut i: usize = 0;
    while i < list.len()
        invariant
            i <= list@.len(),
            forall|uuid: Seq<char>| #[trigger]
                named_in(out@, uuid) <==> named_in(old(out)@, uuid) || named_in(
                    list@.take(i as int),
                    uuid,
                ),
            forall|a: int, b: int|
                0 <= a < b < out@.len() ==> #[trigger] out@[a]@ != #[trigger] out@[b]@,
            texts(out@) == each_once(texts(old(out)@), texts(list@.take(i as int))),
        decreases list@.len() - i,
    {
        let ghost was = out@;
        let ghost seen = list@.take(i as int);
        let ghost next = list@.take(i + 1);
        if !holds(out, &list[i]) {
            out.push(list[i].clone());
        }
        proof {
            assert(next =~= seen.push(list@[i as int]));
            assert(texts(next).drop_last() =~= texts(seen));
            assert(texts(next).last() == list@[i as int]@);
            if named_in(was, list@[i as int]@) {
                let k = choose|k: int| 0 <= k < was.len() && #[trigger] was[k]@ == list@[i as int]@;
                assert(texts(was)[k] == list@[i as int]@);
            } else {
                assert(!texts(was).contains(list@[i as int]@)) by {
                    if texts(was).contains(list@[i as int]@) {
                        let k = texts(was).index_of(list@[i as int]@);
                        assert(was[k]@ == list@[i as int]@);
                    }
                }
                assert(texts(out@) =~= texts(was).push(list@[i as int]@));
            }
            assert forall|uuid: Seq<char>| #[trigger]
                named_in(next, uuid) <==> named_in(seen, uuid) || uuid == list@[i as int]@ by {
                if named_in(seen, uuid) {
                    let k = choose|k: int| 0 <= k < seen.len() && #[trigger] seen[k]@ == uuid;
                    assert(next[k]@ == uuid);
                }
                assert(next[i as int]@ == list@[i as int]@);
            }
            assert forall|uuid: Seq<char>| #[trigger]
                named_in(out@, uuid) <==> named_in(was, uuid) || uuid == list@[i as int]@ by {
                if named_in(was, uuid) {
                    let k = choose|k: int| 0 <= k < was.len() && #[trigger] was[k]@ == uuid;
                    assert(out@[k]@ == uuid);
                }
                if out@.len() > was.len() {
                    assert(out@[was.len() as int]@ == list@[i as int]@);
                }
            }
        }
        i = i + 1;
    }
    assert(list@.take(list@.len() as int) =~= list@);
}

/// Deleting leaves row and directory in agreement, or, where it fails, as they were.
pub proof fn deleting_keeps_agreement(before: Placement, moved: bool)
    requires
        before.settled(),
    ensures
        after_move(before, moved).settled(),
        move_step(before) == MoveStep::Move && !moved ==> after_move(before, moved) == before,
{
}

/// What a run says of an asset is what becomes of it: it counts where it lies in the trash,
/// its row is unmarked where it stays live, and its hash is forgotten where it was live
/// before.
pub proof fn runs_say_what_becomes_of_an_asset(before: Placement, went: bool)
    ensures
        counts(move_step(before), !went) <==> after_move(before, went).row == RowState::Deleted,
        falls_back(move_step(before), !went) <==> after_move(before, went).row == RowState::Live,
        falls_back(move_step(before), !went) ==> after_move(before, went) == before,
        counts(move_step(before), !went) && move_step(before) != MoveStep::Already
            <==> before.row == RowState::Live && after_move(before, went).row == RowState::Deleted,
{
}

/// Deleting several assets, each of them ends where deleting it alone takes it, whatever
/// became of the others; an asset that is not among them stays where it is.
pub proof fn each_asset_is_deleted_on_its_own(
    world: Map<Seq<char>, Placement>,
    uuids: Seq<Seq<char>>,
    went: Seq<bool>,
)
    requires
        uuids.no_duplicates(),
        went.len() == uuids.len(),
    ensures
        forall|i: int|
            0 <= i < uuids.len() ==> after_moves(world, uuids, went)[#[trigger] uuids[i]]
                == after_move(world[uuids[i]], went[i]),
        forall|uuid: Seq<char>|
            !uuids.contains(uuid) ==> #[trigger] after_moves(world, uuids, went)[uuid]
                == world[uuid],
    decreases uuids.len(),
{
    if uuids.len() > 0 {
        let fewer = uuids.drop_last();
        let before = after_moves(world, fewer, went.drop_last());
        assert(fewer.no_duplicates());
        each_asset_is_deleted_on_its_own(world, fewer, went.drop_last());
        assert(!fewer.contains(uuids.last()));
        assert forall|i: int| 0 <= i < uuids.len() implies after_moves(world, uuids, went)[
            #[trigger] uuids[i]
        ] == after_move(world[uuids[i]], went[i]) by {
            if i < fewer.len() {
                assert(fewer[i] == uuids[i]);
            }
        }
        assert forall|uuid: Seq<char>| !uuids.contains(uuid) implies #[trigger] after_moves(
            world,
            uuids,
            went,
        )[uuid] == world[uuid] by {
            assert(uuids.contains(uuids.last())) by {
                assert(uuids[uuids.len() - 1] == uuids.last());
            }
            assert forall|i: int| 0 <= i < fewer.len() implies fewer[i] != uuid by {
                assert(uuids[i] == fewer[i]);
            }
        }
    }
}

/// An asset that is named again has been settled: naming it twice takes it nowhere that
/// naming it once does not, unless the first attempt failed.
pub proof fn naming_an_asset_twice(before: Placement, went: bool, again: bool)
    requires
        !falls_back(move_step(before), !went),
    ensures
        after_move(after_move(before, went), again) == after_move(before, went),
{
}

/// Restoring an asset puts it back as it was before it was deleted.
pub proof fn restoring_undoes_deleting(before: Placement)
    requires
        before.row == RowState::Live,
        before.settled(),
    ensures
        after_restore(after_move(before, true), true) == before,
        restore_step(after_move(before, true)) != RestoreStep::NotDeleted,
{
}

/// Deleting what is deleted, and restoring what is not, changes nothing.
pub proof fn repeating_changes_nothing(before: Placement, moved: bool)
    ensures
        after_move(after_move(before, true), moved) == after_move(before, true) || move_step(before)
            == MoveStep::Refuse,
        after_restore(after_restore(before, true), moved) == after_restore(before, true),
{
}

/// A second round of repairs finds nothing to do.
pub proof fn repairing_twice_is_repairing_once(at: Placement)
    ensures
        repair_for(repaired(at)) == Repair::Nothing,
        repaired(repaired(at)) == repaired(at),
{
}

/// A repair brings row and directory into agreement, but for an asset whose original
/// cannot be told.
pub proof fn repairing_settles(at: Placement)
    requires
        !at.ambiguous(),
    ensures
        repaired(at).settled(),
        repaired(at).row == at.row,
{
}

/// A repair of an asset that has a row loses no bytes: a directory is removed only where
/// another one is left, or where there is no row.
pub proof fn repairing_keeps_the_bytes(at: Placement)
    requires
        at.row != RowState::Missing,
        at.in_objects || at.in_trash,
    ensures
        repaired(at).in_objects || repaired(at).in_trash,
{
}

/// After all repairs none is needed.
pub proof fn all_repairs_converge(places: Seq<Placement>)
    ensures
        repairs_needed(places.map_values(|at: Placement| repaired(at))) == 0,
    decreases places.len(),
{
    let after = places.map_values(|at: Placement| repaired(at));
    if places.len() > 0 {
        all_repairs_converge(places.drop_last());
        assert(after.drop_last() =~= places.drop_last().map_values(|at: Placement| repaired(at)));
        repairing_twice_is_repairing_once(places.last());
    }
}

/// Nothing is left to repair of what was purged, and purging it again changes nothing.
pub proof fn purging_leaves_nothing_to_repair(before: Placement)
    ensures
        repair_for(after_purge(before)) is Nothing,
        after_purge(after_purge(before)) == after_purge(before),
{
}

/// An asset that is deleted has its row marked and its directory, where it has one, moved from
/// `objects` to `trash`; where the directory cannot be moved, or one lies in the trash before
/// it, all stays as it is. An asset without a live row stays as it is too.
pub proof fn deleting_marks_and_moves(before: Placement, moved: bool)
    ensures
        before.row == RowState::Live && !before.in_trash && (moved || !before.in_objects) ==> {
            &&& after_move(before, moved).row == RowState::Deleted
            &&& !after_move(before, moved).in_objects
            &&& after_move(before, moved).in_trash == before.in_objects
        },
        before.row != RowState::Live || before.in_trash || (before.in_objects && !moved)
            ==> after_move(before, moved) == before,
{
}

/// An asset that is restored has its row unmarked and its directory, where it lies in the
/// trash, back in `objects`; where the directory cannot be moved back, all stays as it is. An
/// asset that is not deleted stays as it is too.
pub proof fn restoring_unmarks_and_moves_back(before: Placement, moved: bool)
    ensures
        before.row == RowState::Deleted && (moved || !before.in_trash) ==> {
            &&& after_restore(before, moved).row == RowState::Live
            &&& !after_restore(before, moved).in_trash
            &&& after_restore(before, moved).in_objects == (before.in_objects || before.in_trash)
        },
        before.row != RowState::Deleted || (before.in_trash && !moved) ==> after_restore(
            before,
            moved,
        ) == before,
{
}

/// What a repair leaves: the row as it was; of a live asset the directory in `objects`, of a
/// deleted one that in the trash, where there was one in either place; of an asset without a
/// row nothing in the trash. Only where a deleted asset has both do both stay.
pub proof fn repairs_follow_the_row(at: Placement)
    ensures
        repaired(at).row == at.row,
        at.row == RowState::Live ==> repaired(at).in_objects == (at.in_objects || at.in_trash)
            && !repaired(at).in_trash,
        at.row == RowState::Deleted && !(at.in_objects && at.in_trash) ==> repaired(at).in_trash
            == (at.in_objects || at.in_trash) && !repaired(at).in_objects,
        at.row == RowState::Deleted && at.in_objects && at.in_trash ==> repaired(at) == at,
        at.row == RowState::Missing ==> repaired(at).in_objects == at.in_objects
            && !repaired(at).in_trash,
        repair_for(at) == Repair::Nothing <==> repaired(at) == at,
{
}

/// After a purge neither row nor directory is left.
pub proof fn purging_leaves_nothing(before: Placement)
    ensures
        after_purge(before).row == RowState::Missing,
        !after_purge(before).in_objects,
        !after_purge(before).in_trash,
{
}

/// The number of repairs is that of the assets whose repair is one.
pub proof fn repairs_are_counted_one_by_one(places: Seq<Placement>, at: Placement)
    ensures
        repairs_needed(Seq::<Placement>::empty()) == 0,
        repaired(at) == at ==> repairs_needed(places.push(at)) == repairs_needed(places),
        repaired(at) != at ==> repairs_needed(places.push(at)) == repairs_needed(places) + 1,
{
    assert(places.push(at).drop_last() =~= places);
}

/// Deleting several assets starts from the world as it is and takes them in turn.
pub proof fn moves_follow_one_another(
    world: Map<Seq<char>, Placement>,
    uuids: Seq<Seq<char>>,
    went: Seq<bool>,
    uuid: Seq<char>,
    goes: bool,
)
    requires
        went.len() == uuids.len(),
    ensures
        uuids.len() == 0 ==> after_moves(world, uuids, went) == world,
        after_moves(world, uuids.push(uuid), went.push(goes))[uuid] == after_move(
            after_moves(world, uuids, went)[uuid],
            goes,
        ),
{
    assert(uuids.push(uuid).drop_last() =~= uuids);
    assert(went.push(goes).drop_last() =~= went);
}

/// A text that is not there yet comes behind the others; one that is there is not added again.
pub proof fn new_texts_come_behind(known: Seq<Seq<char>>, list: Seq<Seq<char>>, text: Seq<char>)
    ensures
        each_once(known, Seq::<Seq<char>>::empty()) == known,
        each_once(known, list).contains(text) ==> each_once(known, list.push(text)) == each_once(
            known,
            list,
        ),
        !each_once(known, list).contains(text) ==> each_once(known, list.push(text)) == each_once(
            known,
            list,
        ).push(text),
{
    assert(list.push(text).drop_last() =~= list);
}

/// A text is named in a list where one of its strings is that text.
pub proof fn named_texts_stand_in_the_list(list: Seq<String>, uuid: Seq<char>)
    ensures
        named_in(list, uuid) <==> texts(list).contains(uuid),
{
    if named_in(list, uuid) {
        let i = choose|i: int| 0 <= i < list.len() && #[trigger] list[i]@ == uuid;
        assert(texts(list)[i] == uuid);
    }
    if texts(list).contains(uuid) {
        let i = texts(list).index_of(uuid);
        assert(list[i]@ == uuid);
    }
}

/// Row and directory agree where a live asset has nothing in the trash and a deleted one
/// nothing elsewhere; only a deleted asset with both cannot be told.
pub proof fn settled_assets_lie_in_one_place(at: Placement)
    ensures
        at.row == RowState::Live || at.row == RowState::Missing ==> (at.settled()
            <==> !at.in_trash),
        at.row == RowState::Deleted ==> (at.settled() <==> !at.in_objects),
        at.ambiguous() <==> at.row == RowState::Deleted && at.in_objects && at.in_trash,
{
}

} // verus!
