//! Which thumbnails are loaded, and which stay.
//!
//! Only a few are loaded at a time, so that the window never stands still, and only those of
//! the rows in the window stay. An image is known by a number; `EMPTY_IMAGE` is that of no
//! image, which is kept like any other, so that a missing file is not looked for again and
//! again.

use std::collections::HashSet;

use lru::LruCache;
use vstd::prelude::*;

use crate::digits::{decimal, push_number, push_text};
use crate::domain::AssetKind;
use crate::recent::{
    cache_clear, cache_entries, cache_get, cache_len, cache_pop, cache_put, entries, limit,
    new_cache, place, stored, touched,
};
use crate::text::string_of;
use crate::ui_enums::{card_kind, kind_code};

verus! {

broadcast use vstd::std_specs::hash::group_hash_axioms;

/// How many thumbnails are loaded in one pass.
pub const THUMB_LOAD_BUDGET: usize = 6;

/// How long to wait before the next pass.
pub const FILL_INTERVAL_MS: u64 = 16;

/// The number of no image.
pub const EMPTY_IMAGE: u64 = 0;

/// No key stands twice.
pub open spec fn distinct(entries: Seq<(u32, u64)>) -> bool {
    forall|i: int, j: int|
        0 <= i < j < entries.len() ==> (#[trigger] entries[i]).0 != (#[trigger] entries[j]).0
}

/// A key stands among entries.
pub open spec fn holds(entries: Seq<(u32, u64)>, key: u32) -> bool {
    place(entries, key) < entries.len()
}

/// The entries whose key is in `window`.
pub open spec fn kept(entries: Seq<(u32, u64)>, window: Set<u32>) -> Seq<(u32, u64)>
    decreases entries.len(),
{
    if entries.len() == 0 {
        Seq::empty()
    } else {
        let before = kept(entries.drop_last(), window);
        if window.contains(entries.last().0) {
            before.push(entries.last())
        } else {
            before
        }
    }
}

proof fn place_finds(entries: Seq<(u32, u64)>, key: u32)
    ensures
        0 <= place(entries, key) <= entries.len(),
        holds(entries, key) ==> entries[place(entries, key)].0 == key,
        forall|i: int| 0 <= i < place(entries, key) ==> (#[trigger] entries[i]).0 != key,
    decreases entries.len(),
{
    if entries.len() > 0 && entries[0].0 != key {
        let rest = entries.drop_first();
        place_finds(rest, key);
        assert forall|i: int| 0 <= i < place(entries, key) implies (#[trigger] entries[i]).0
            != key by {
            if i > 0 {
                assert(rest[i - 1] == entries[i]);
            }
        }
    }
}

proof fn place_of_entry(entries: Seq<(u32, u64)>, at: int)
    requires
        distinct(entries),
        0 <= at < entries.len(),
    ensures
        place(entries, entries[at].0) == at,
        holds(entries, entries[at].0),
{
    place_finds(entries, entries[at].0);
    let found = place(entries, entries[at].0);
    if found != at {
        if found < at {
            assert(entries[found].0 != entries[at].0);
        } else {
            assert(entries[at].0 != entries[at].0);
        }
    }
}

proof fn absent_is_nowhere(entries: Seq<(u32, u64)>, key: u32)
    requires
        !holds(entries, key),
    ensures
        forall|i: int| 0 <= i < entries.len() ==> (#[trigger] entries[i]).0 != key,
{
    place_finds(entries, key);
}

/// A cache of thumbnails.
pub struct ThumbCache {
    entries: LruCache<u32, u64>,
}

impl View for ThumbCache {
    type V = Seq<(u32, u64)>;

    /// The assets with their images, the one that was used last in front.
    closed spec fn view(&self) -> Seq<(u32, u64)> {
        entries(self.entries)
    }
}

impl ThumbCache {
    /// How many images the cache holds at most.
    pub closed spec fn limit(&self) -> nat {
        limit(self.entries)
    }

    pub open spec fn wf(&self) -> bool {
        &&& distinct(self@)
        &&& self@.len() <= self.limit()
        &&& self.limit() > 0
    }

    /// An empty cache for `capacity` images, but at least one.
    pub fn new(capacity: usize) -> (r: ThumbCache)
        requires
            capacity <= usize::MAX / 256,
        ensures
            r.wf(),
            r@ == Seq::<(u32, u64)>::empty(),
            r.limit() == if capacity > 1 {
                capacity
            } else {
                1
            },
    {
        let capacity: usize = if capacity > 1 {
            capacity
        } else {
            1
        };
        ThumbCache { entries: new_cache(capacity) }
    }

    /// The image of an asset, if it is there. It counts as used.
    pub fn get(&mut self, id: u32) -> (r: Option<u64>)
        requires
            old(self).wf(),
        ensures
            final(self).wf(),
            final(self).limit() == old(self).limit(),
            final(self)@ == touched(old(self)@, id),
            r == if holds(old(self)@, id) {
                Some(old(self)@[place(old(self)@, id)].1)
            } else {
                None
            },
            r matches Some(image) ==> old(self)@.contains((id, image)) && final(self)@[0] == (
                id,
                image,
            ),
            r is None ==> final(self)@ == old(self)@ && forall|i: int|
                0 <= i < old(self)@.len() ==> (#[trigger] old(self)@[i]).0 != id,
            final(self)@.to_multiset() == old(self)@.to_multiset(),
    {
        proof {
            place_finds(self@, id);
            touching_keeps_distinct(self@, id);
            crate::recent::touched_entries_come_first(self@, id);
        }
        cache_get(&mut self.entries, id)
    }

    /// Keeps the image of an asset. A full cache forgets the one that was used least
    /// recently.
    pub fn put(&mut self, id: u32, image: u64)
        requires
            old(self).wf(),
        ensures
            final(self).wf(),
            final(self).limit() == old(self).limit(),
            final(self)@ == stored(old(self)@, old(self).limit(), id, image),
            final(self)@.len() > 0 && final(self)@[0] == (id, image),
            forall|entry: (u32, u64)|
                entry.0 != id && old(self)@.contains(entry) && (old(self)@.len() < old(self).limit()
                    || entry != old(self)@.last()) ==> #[trigger] final(self)@.contains(entry),
    {
        proof {
            place_finds(self@, id);
            storing_keeps_distinct(self@, self.limit(), id, image);
            let before = self@;
            let limit = self.limit();
            assert forall|entry: (u32, u64)|
                entry.0 != id && before.contains(entry) && (before.len() < limit || entry
                    != before.last()) implies #[trigger] stored(before, limit, id, image).contains(
                entry,
            ) by {
                crate::recent::stored_entries_come_first(before, limit, id, image, entry);
            }
        }
        cache_put(&mut self.entries, id, image);
    }

    /// Forgets what is not in the window.
    pub fn retain_window(&mut self, window: &HashSet<u32>)
        requires
            old(self).wf(),
        ensures
            final(self).wf(),
            final(self).limit() == old(self).limit(),
            final(self)@ == kept(old(self)@, window@),
            forall|entry: (u32, u64)| #[trigger]
                final(self)@.contains(entry) <==> old(self)@.contains(entry) && window@.contains(
                    entry.0,
                ),
    {
        let all = cache_entries(&self.entries);
        let mut i: usize = 0;
        proof {
            assert(all@.take(0) =~= Seq::empty());
            assert(kept(all@.take(0), window@) + all@.skip(0) =~= self@);
        }
        while i < all.len()
            invariant
                i <= all@.len(),
                all@ == old(self)@,
                self.wf(),
                self.limit() == old(self).limit(),
                self@ == kept(all@.take(i as int), window@) + all@.skip(i as int),
            decreases all@.len() - i,
        {
            let ghost done = kept(all@.take(i as int), window@);
            let ghost at = done.len() as int;
            let key = all[i].0;
            proof {
                assert(all@.take(i + 1).drop_last() =~= all@.take(i as int));
                assert(self@[at] == all@[i as int]);
                place_of_entry(self@, at);
            }
            if !window.contains(&key) {
                proof {
                    removing_keeps_distinct(self@, at);
                    assert(self@.remove(at) =~= done + all@.skip(i + 1));
                }
                cache_pop(&mut self.entries, key);
            } else {
                assert(done + all@.skip(i as int) =~= done.push(all@[i as int]) + all@.skip(i + 1));
            }
            i = i + 1;
        }
        assert(all@.take(i as int) =~= all@);
        assert(self@ =~= kept(all@, window@));
        proof {
            kept_members(all@, window@);
        }
    }

    /// Forgets everything.
    pub fn clear(&mut self)
        requires
            old(self).wf(),
        ensures
            final(self).wf(),
            final(self).limit() == old(self).limit(),
            final(self)@ == Seq::<(u32, u64)>::empty(),
    {
        cache_clear(&mut self.entries);
    }

    pub fn len(&self) -> (r: usize)
        ensures
            r == self@.len(),
    {
        cache_len(&self.entries)
    }

    /// The images that are there, with their assets, the one that was used last in front.
    pub fn images(&self) -> (r: Vec<(u32, u64)>)
        ensures
            r@ == self@,
    {
        cache_entries(&self.entries)
    }
}

proof fn removing_keeps_distinct(entries: Seq<(u32, u64)>, at: int)
    requires
        distinct(entries),
        0 <= at < entries.len(),
    ensures
        distinct(entries.remove(at)),
        forall|i: int|
            0 <= i < entries.len() - 1 ==> (#[trigger] entries.remove(at)[i]).0 != entries[at].0,
{
    let rest = entries.remove(at);
    assert forall|i: int, j: int| 0 <= i < j < rest.len() implies (#[trigger] rest[i]).0 != (
    #[trigger] rest[j]).0 by {
        let a = if i < at {
            i
        } else {
            i + 1
        };
        let b = if j < at {
            j
        } else {
            j + 1
        };
        assert(entries[a].0 != entries[b].0);
    }
    assert forall|i: int| 0 <= i < entries.len() - 1 implies (#[trigger] rest[i]).0
        != entries[at].0 by {
        if i < at {
            assert(entries[i].0 != entries[at].0);
        } else {
            assert(entries[at].0 != entries[i + 1].0);
        }
    }
}

proof fn fronting_keeps_distinct(first: (u32, u64), rest: Seq<(u32, u64)>)
    requires
        distinct(rest),
        forall|i: int| 0 <= i < rest.len() ==> (#[trigger] rest[i]).0 != first.0,
    ensures
        distinct(seq![first] + rest),
{
    let all = seq![first] + rest;
    assert forall|i: int, j: int| 0 <= i < j < all.len() implies (#[trigger] all[i]).0 != (
    #[trigger] all[j]).0 by {
        assert(all[j] == rest[j - 1]);
        if i > 0 {
            assert(all[i] == rest[i - 1]);
        }
    }
}

proof fn touching_keeps_distinct(entries: Seq<(u32, u64)>, key: u32)
    requires
        distinct(entries),
    ensures
        distinct(touched(entries, key)),
        touched(entries, key).len() == entries.len(),
{
    place_finds(entries, key);
    let at = place(entries, key);
    if at < entries.len() {
        removing_keeps_distinct(entries, at);
        fronting_keeps_distinct(entries[at], entries.remove(at));
    }
}

proof fn storing_keeps_distinct(entries: Seq<(u32, u64)>, limit: nat, key: u32, value: u64)
    requires
        distinct(entries),
        entries.len() <= limit,
        limit > 0,
    ensures
        distinct(stored(entries, limit, key, value)),
        stored(entries, limit, key, value).len() <= limit,
{
    place_finds(entries, key);
    let at = place(entries, key);
    if at < entries.len() {
        removing_keeps_distinct(entries, at);
        fronting_keeps_distinct((key, value), entries.remove(at));
    } else if entries.len() == limit {
        absent_is_nowhere(entries, key);
        fronting_keeps_distinct((key, value), entries.drop_last());
    } else {
        absent_is_nowhere(entries, key);
        fronting_keeps_distinct((key, value), entries);
    }
}

/// What a row of the window is about.
#[derive(Debug, Clone, PartialEq, Eq)]
pub struct TileItem {
    pub id: u32,
    pub kind: AssetKind,
    pub name: String,
    /// The beginning of a text.
    pub preview: String,
}

/// What a row of the window shows.
#[derive(Debug, Clone, PartialEq, Eq)]
pub struct TileRow {
    pub asset_id: i32,
    pub label: String,
    /// What is seen where there is no image.
    pub color: u32,
    pub kind: i32,
    pub preview: String,
    pub thumb: u64,
    /// The image has not been looked for yet.
    pub pending: bool,
}

/// The colours that are seen where there is no image.
pub open spec fn palette(id: u32) -> u32 {
    if id % 8 == 0 {
        0xFF4C6EF5
    } else if id % 8 == 1 {
        0xFFF76707
    } else if id % 8 == 2 {
        0xFF20C997
    } else if id % 8 == 3 {
        0xFFBE4BDB
    } else if id % 8 == 4 {
        0xFF228BE6
    } else if id % 8 == 5 {
        0xFFFFA8A8
    } else if id % 8 == 6 {
        0xFF82C91E
    } else {
        0xFFFAB005
    }
}

fn color_of(id: u32) -> (r: u32)
    ensures
        r == palette(id),
{
    match id % 8 {
        0 => 0xFF4C6EF5,
        1 => 0xFFF76707,
        2 => 0xFF20C997,
        3 => 0xFFBE4BDB,
        4 => 0xFF228BE6,
        5 => 0xFFFFA8A8,
        6 => 0xFF82C91E,
        _ => 0xFFFAB005,
    }
}

/// What a row is called: by its name, or by its number where it has none.
pub open spec fn row_label(item: TileItem) -> Seq<char> {
    if item.name@.len() == 0 {
        "#"@ + decimal(item.id as nat)
    } else {
        item.name@
    }
}

impl TileRow {
    /// The row is that of an item.
    pub open spec fn shows(&self, item: TileItem) -> bool {
        &&& self.asset_id == item.id as i32
        &&& self.label@ == row_label(item)
        &&& self.color == palette(item.id)
        &&& self.kind == kind_code(item.kind)
        &&& self.preview@ == item.preview@
    }

    fn of(item: &TileItem, thumb: u64, pending: bool) -> (r: TileRow)
        ensures
            r.shows(*item),
            r.thumb == thumb,
            r.pending == pending,
    {
        let label = if item.name.as_str().unicode_len() == 0 {
            let mut out: Vec<char> = Vec::new();
            push_text(&mut out, "#");
            push_number(&mut out, item.id as u64);
            assert(out@ =~= "#"@ + decimal(item.id as nat));
            string_of(out)
        } else {
            item.name.clone()
        };
        TileRow {
            asset_id: #[verifier::truncate] (item.id as i32),
            label,
            color: color_of(item.id),
            kind: card_kind(item.kind),
            preview: item.preview.clone(),
            thumb,
            pending,
        }
    }
}

/// The assets of the rows.
pub open spec fn ids_of(items: Seq<TileItem>) -> Seq<u32> {
    items.map_values(|item: TileItem| item.id)
}

/// How many rows have no image in the cache.
pub open spec fn uncached(entries: Seq<(u32, u64)>, items: Seq<TileItem>) -> nat
    decreases items.len(),
{
    if items.len() == 0 {
        0
    } else {
        uncached(entries, items.drop_last()) + if holds(entries, items.last().id) {
            0nat
        } else {
            1nat
        }
    }
}

/// How many rows wait for their image.
pub open spec fn waiting_rows(rows: Seq<TileRow>) -> nat
    decreases rows.len(),
{
    if rows.len() == 0 {
        0
    } else {
        waiting_rows(rows.drop_last()) + if rows.last().pending {
            1nat
        } else {
            0nat
        }
    }
}

/// The image of an asset is among the first `bound` entries.
pub open spec fn stands_within(
    entries: Seq<(u32, u64)>,
    bound: int,
    id: u32,
    image: u64,
) -> bool {
    exists|p: int| 0 <= p < bound && p < entries.len() && #[trigger] entries[p] == (id, image)
}

/// No row of the window stands twice, and beside what the cache holds there is room for the
/// rows that have no image there.
pub open spec fn roomy(entries: Seq<(u32, u64)>, limit: nat, items: Seq<TileItem>) -> bool {
    &&& ids_of(items).no_duplicates()
    &&& entries.len() + uncached(entries, items) <= limit
}

/// No row of the window stands twice, and none of them is in `evicted`.
pub open spec fn spared(evicted: Seq<u32>, items: Seq<TileItem>) -> bool {
    &&& ids_of(items).no_duplicates()
    &&& forall|k: int|
        0 <= k < evicted.len() ==> !ids_of(items).contains(#[trigger] evicted[k])
}

/// What to do next in a pass.
#[derive(Debug, Clone, Copy, PartialEq, Eq, Structural)]
pub enum PassStep {
    /// A row was made.
    Placed,
    /// The image of an asset is loaded.
    Load { id: u32 },
    Finished,
}

/// A pass over the rows of the window.
pub struct WindowPass {
    items: Vec<TileItem>,
    cache: ThumbCache,
    rows: Vec<TileRow>,
    updates: Vec<usize>,
    budget: usize,
    missing: usize,
    loading: bool,
    start: Ghost<Seq<(u32, u64)>>,
    evicted: Ghost<Seq<u32>>,
}

/// What a pass has made.
#[derive(Debug, Clone, PartialEq, Eq)]
pub struct WindowBuild {
    /// All rows of the window.
    pub rows: Vec<TileRow>,
    /// The rows whose image was loaded in this pass.
    pub updates: Vec<usize>,
    /// How many rows wait for their image. If there are any, there is another pass.
    pub missing: usize,
}

impl WindowPass {
    pub closed spec fn items(&self) -> Seq<TileItem> {
        self.items@
    }

    pub closed spec fn cached(&self) -> Seq<(u32, u64)> {
        self.cache@
    }

    pub closed spec fn limit(&self) -> nat {
        self.cache.limit()
    }

    pub closed spec fn rows(&self) -> Seq<TileRow> {
        self.rows@
    }

    pub closed spec fn updates(&self) -> Seq<usize> {
        self.updates@
    }

    pub closed spec fn missing(&self) -> int {
        self.missing as int
    }

    /// How many images may still be loaded.
    pub closed spec fn budget(&self) -> int {
        self.budget as int
    }

    /// An image is being loaded.
    pub closed spec fn loading(&self) -> bool {
        self.loading
    }

    /// What the cache held when the pass began.
    pub closed spec fn start_entries(&self) -> Seq<(u32, u64)> {
        self.start@
    }

    /// Whose images were forgotten, so far, to make room for others.
    pub closed spec fn evicted(&self) -> Seq<u32> {
        self.evicted@
    }

    /// No row of the window stands twice, and none has had its image forgotten.
    pub open spec fn undisturbed(&self) -> bool {
        spared(self.evicted(), self.items())
    }

    /// How many images were loaded.
    pub open spec fn loads(&self) -> int {
        THUMB_LOAD_BUDGET - self.budget()
    }

    /// The rows stand for their items, rows wait only once the budget is spent, and no image
    /// that is shown was forgotten while there is room for the window.
    pub open spec fn sound(&self) -> bool {
        let at = self.rows().len() as int;
        &&& distinct(self.cached())
        &&& self.cached().len() <= self.limit()
        &&& self.limit() > 0
        &&& at <= self.items().len()
        &&& self.loading() ==> at < self.items().len() && !holds(
            self.cached(),
            self.items()[at].id,
        ) && self.loads() > 0
        &&& forall|j: int| 0 <= j < at ==> (#[trigger] self.rows()[j]).shows(self.items()[j])
        &&& 0 <= self.budget() <= THUMB_LOAD_BUDGET
        &&& self.missing() == waiting_rows(self.rows())
        &&& self.missing() > 0 ==> self.budget() == 0
        &&& forall|k: int| 0 <= k < self.updates().len() ==> #[trigger] self.updates()[k] < at
        &&& self.items().len() <= self.limit() ==> forall|j: int|
            0 <= j < at && !(#[trigger] self.rows()[j]).pending ==> stands_within(
                self.cached(),
                at,
                self.items()[j].id,
                self.rows()[j].thumb,
            )
    }

    /// Where no row of the window has had its image forgotten, each that had none is loaded
    /// or waits. Where there is room for all of them, nothing is forgotten.
    pub open spec fn accounts(&self) -> bool {
        let at = self.rows().len() as int;
        &&& roomy(self.start_entries(), self.limit(), self.items()) ==> {
            &&& self.evicted().len() == 0
            &&& roomy(self.cached(), self.limit(), self.items())
        }
        &&& self.undisturbed() ==> {
            &&& forall|j: int|
                at <= j < self.items().len()
                    ==> holds(self.cached(), (#[trigger] self.items()[j]).id)
                    == holds(self.start_entries(), self.items()[j].id)
            &&& forall|j: int|
                0 <= j < at ==> holds(self.cached(), self.items()[j].id) == !(
                #[trigger] self.rows()[j]).pending
            &&& uncached(self.start_entries(), self.items().take(at)) == self.missing()
                + self.loads() - if self.loading() {
                1int
            } else {
                0int
            }
        }
    }

    pub closed spec fn wf(&self) -> bool {
        &&& self.cache.wf()
        &&& self.sound()
        &&& self.accounts()
    }

    /// The window and the room for images are the same.
    pub open spec fn continues(&self, before: &WindowPass) -> bool {
        &&& self.items() == before.items()
        &&& self.limit() == before.limit()
        &&& self.start_entries() == before.start_entries()
    }

    /// A row was added.
    pub open spec fn adds_row(&self, before: &WindowPass, thumb: u64, pending: bool) -> bool {
        let at = before.rows().len() as int;
        &&& self.rows().len() == at + 1
        &&& self.rows().drop_last() == before.rows()
        &&& self.rows().last().shows(self.items()[at])
        &&& self.rows().last().thumb == thumb
        &&& self.rows().last().pending == pending
    }

    /// Begins a pass over the rows of the window.
    pub fn start(items: Vec<TileItem>, cache: ThumbCache) -> (r: WindowPass)
        requires
            cache.wf(),
        ensures
            r.wf(),
            r.items() == items@,
            r.cached() == cache@,
            r.start_entries() == cache@,
            r.limit() == cache.limit(),
            r.rows().len() == 0,
            r.updates().len() == 0,
            r.missing() == 0,
            r.budget() == THUMB_LOAD_BUDGET,
            r.evicted().len() == 0,
            !r.loading(),
    {
        let ghost before = cache@;
        let r = WindowPass {
            items,
            cache,
            rows: Vec::new(),
            updates: Vec::new(),
            budget: THUMB_LOAD_BUDGET,
            missing: 0,
            loading: false,
            start: Ghost(before),
            evicted: Ghost(Seq::empty()),
        };
        assert(r.items().take(0) =~= Seq::empty());
        r
    }

    /// Makes the next row, or asks for its image: one that is in the cache is shown, and else
    /// it is loaded as long as the budget lasts.
    pub fn next(&mut self) -> (r: PassStep)
        requires
            old(self).wf(),
            !old(self).loading(),
        ensures
            final(self).wf(),
            final(self).continues(old(self)),
            final(self).updates() == old(self).updates(),
            final(self).evicted() == old(self).evicted(),
            ({
                let at = old(self).rows().len() as int;
                if at == old(self).items().len() {
                    &&& r is Finished
                    &&& final(self).cached() == old(self).cached()
                    &&& final(self).rows() == old(self).rows()
                    &&& final(self).missing() == old(self).missing()
                    &&& final(self).budget() == old(self).budget()
                    &&& !final(self).loading()
                } else {
                    let id = old(self).items()[at].id;
                    &&& final(self).cached() == touched(old(self).cached(), id)
                    &&& if holds(old(self).cached(), id) {
                        &&& r is Placed
                        &&& final(self).adds_row(
                            old(self),
                            old(self).cached()[place(old(self).cached(), id)].1,
                            false,
                        )
                        &&& final(self).missing() == old(self).missing()
                        &&& final(self).budget() == old(self).budget()
                        &&& !final(self).loading()
                    } else if old(self).budget() > 0 {
                        &&& r == (PassStep::Load { id })
                        &&& final(self).rows() == old(self).rows()
                        &&& final(self).missing() == old(self).missing()
                        &&& final(self).budget() == old(self).budget() - 1
                        &&& final(self).loading()
                    } else {
                        &&& r is Placed
                        &&& final(self).adds_row(old(self), EMPTY_IMAGE, true)
                        &&& final(self).missing() == old(self).missing() + 1
                        &&& final(self).budget() == old(self).budget()
                        &&& !final(self).loading()
                    }
                }
            }),
    {
        let at: usize = self.rows.len();
        if at == self.items.len() {
            return PassStep::Finished;
        }
        let id: u32 = self.items[at].id;
        let ghost cached = self.cache@;
        let ghost rows = self.rows@;
        let ghost items = self.items@;
        let ghost undisturbed = self.undisturbed();
        proof {
            waiting_rows_are_rows(rows);
            assert forall|k: int| 0 <= k < self.updates@.len() implies #[trigger] self.updates@[k]
                < at by {
                assert(self.updates()[k] < at);
            }
            place_finds(cached, id);
            assert(items.take(at + 1).drop_last() =~= items.take(at as int));
            assert(ids_of(items)[at as int] == id);
        }
        match self.cache.get(id) {
            Some(image) => {
                let row = TileRow::of(&self.items[at], image, false);
                self.rows.push(row);
                proof {
                    let now = self.rows@;
                    let after = self.cache@;
                    assert(now.drop_last() =~= rows);
                    if items.len() <= self.cache.limit() {
                        assert(after[0] == (id, image));
                        assert forall|j: int| 0 <= j < now.len() && !(#[trigger]
                        now[j]).pending implies stands_within(
                            after,
                            now.len() as int,
                            items[j].id,
                            now[j].thumb,
                        ) by {
                            if j < at {
                                assert(rows[j] == now[j]);
                                touched_stands(cached, id, at as int, items[j].id, now[j].thumb);
                            }
                        }
                    }
                    assert forall|other: u32| #[trigger]
                        holds(after, other) == holds(cached, other) by {
                        touched_holds(cached, id, other);
                    }
                    same_uncached(cached, after, items);
                    if undisturbed {
                        assert forall|j: int| 0 <= j < now.len() implies holds(after, items[j].id)
                            == !(#[trigger] now[j]).pending by {
                            if j < at {
                                assert(rows[j] == now[j]);
                            }
                        }
                    }
                }
                PassStep::Placed
            },
            None => {
                assert(self.cache@ == cached);
                if self.budget > 0 {
                    self.budget = self.budget - 1;
                    self.loading = true;
                    PassStep::Load { id }
                } else {
                    let row = TileRow::of(&self.items[at], EMPTY_IMAGE, true);
                    self.rows.push(row);
                    self.missing = self.missing + 1;
                    proof {
                        let now = self.rows@;
                        assert(now.drop_last() =~= rows);
                        if items.len() <= self.cache.limit() {
                            assert forall|j: int| 0 <= j < now.len() && !(#[trigger]
                            now[j]).pending implies stands_within(
                                cached,
                                now.len() as int,
                                items[j].id,
                                now[j].thumb,
                            ) by {
                                assert(rows[j] == now[j]);
                                let p = choose|p: int|
                                    0 <= p < at && p < cached.len() && #[trigger] cached[p] == (
                                        items[j].id,
                                        now[j].thumb,
                                    );
                                assert(cached[p] == (items[j].id, now[j].thumb));
                            }
                        }
                        if undisturbed {
                            assert forall|j: int| 0 <= j < now.len() implies holds(
                                cached,
                                items[j].id,
                            ) == !(#[trigger] now[j]).pending by {
                                if j < at {
                                    assert(rows[j] == now[j]);
                                }
                            }
                        }
                    }
                    PassStep::Placed
                }
            },
        }
    }

    /// The image of the next row has been loaded, or is not to be had. Either way it is not
    /// looked for again.
    pub fn loaded(&mut self, image: Option<u64>)
        requires
            old(self).wf(),
            old(self).loading(),
        ensures
            final(self).wf(),
            final(self).continues(old(self)),
            !final(self).loading(),
            final(self).missing() == old(self).missing(),
            final(self).budget() == old(self).budget(),
            ({
                let at = old(self).rows().len() as int;
                let id = old(self).items()[at].id;
                let thumb = match image {
                    Some(image) => image,
                    None => EMPTY_IMAGE,
                };
                &&& final(self).cached() == stored(old(self).cached(), old(self).limit(), id, thumb)
                &&& final(self).adds_row(old(self), thumb, false)
                &&& final(self).evicted() == if old(self).cached().len() == old(self).limit() {
                    old(self).evicted().push(old(self).cached().last().0)
                } else {
                    old(self).evicted()
                }
                &&& final(self).updates() == if image is Some {
                    old(self).updates().push(at as usize)
                } else {
                    old(self).updates()
                }
            }),
    {
        let at: usize = self.rows.len();
        let id: u32 = self.items[at].id;
        let ghost cached = self.cache@;
        let ghost rows = self.rows@;
        let ghost items = self.items@;
        let ghost limit = self.cache.limit();
        let ghost roomy_start = roomy(self.start@, limit, items);
        let ghost gone = self.evicted@;
        proof {
            assert forall|k: int| 0 <= k < self.updates@.len() implies #[trigger] self.updates@[k]
                < at by {
                assert(self.updates()[k] < at);
            }
            place_finds(cached, id);
            assert(items.take(at + 1).drop_last() =~= items.take(at as int));
            assert(ids_of(items)[at as int] == id);
            if roomy_start {
                some_uncached(cached, items, at as int);
            }
        }
        let thumb: u64 = match image {
            Some(image) => {
                self.updates.push(at);
                image
            },
            None => EMPTY_IMAGE,
        };
        self.cache.put(id, thumb);
        let row = TileRow::of(&self.items[at], thumb, false);
        self.rows.push(row);
        self.loading = false;
        proof {
            let now = self.rows@;
            let after = self.cache@;
            assert(now.drop_last() =~= rows);
            assert(after[0] == (id, thumb));
            if items.len() <= limit {
                assert forall|j: int| 0 <= j < now.len() && !(#[trigger]
                now[j]).pending implies stands_within(
                    after,
                    now.len() as int,
                    items[j].id,
                    now[j].thumb,
                ) by {
                    if j < at {
                        assert(rows[j] == now[j]);
                        stored_stands(
                            cached,
                            limit,
                            id,
                            thumb,
                            at as int,
                            items[j].id,
                            now[j].thumb,
                        );
                    }
                }
            }
            if cached.len() == limit {
                self.evicted@ = gone.push(cached.last().0);
                assert(self.evicted@.last() == cached.last().0);
            }
            if roomy_start {
                assert forall|other: u32| #[trigger]
                    holds(after, other) == (other == id || holds(cached, other)) by {
                    stored_holds(cached, limit, id, thumb, other);
                }
                one_fewer_uncached(cached, after, items, at as int);
            }
            if self.undisturbed() {
                assert forall|k: int| 0 <= k < gone.len() implies !ids_of(items).contains(
                    #[trigger] gone[k],
                ) by {
                    assert(self.evicted()[k] == gone[k]);
                }
                assert forall|j: int| 0 <= j < items.len() implies holds(
                    after,
                    (#[trigger] items[j]).id,
                ) == (items[j].id == id || holds(cached, items[j].id)) by {
                    assert(ids_of(items)[j] == items[j].id);
                    if cached.len() == limit {
                        assert(self.evicted()[gone.len() as int] == cached.last().0);
                        assert(items[j].id != cached.last().0);
                        stored_in_place_of_the_last(cached, limit, id, thumb, items[j].id);
                    } else {
                        stored_holds(cached, limit, id, thumb, items[j].id);
                    }
                }
                assert forall|j: int| 0 <= j < items.len() && j != at implies (#[trigger]
                items[j]).id != id by {
                    assert(ids_of(items)[j] == items[j].id);
                }
                assert forall|j: int| 0 <= j < now.len() implies holds(after, items[j].id) == !(
                #[trigger] now[j]).pending by {
                    if j < at {
                        assert(rows[j] == now[j]);
                        assert(items[j].id != id);
                    }
                }
                assert forall|j: int| now.len() <= j < items.len() implies holds(
                    after,
                    (#[trigger] items[j]).id,
                ) == holds(self.start@, items[j].id) by {}
            }
        }
    }

    /// Ends a pass. What is not in the window is forgotten.
    pub fn finish(self) -> (r: (WindowBuild, ThumbCache))
        requires
            self.wf(),
            !self.loading(),
            self.rows().len() == self.items().len(),
        ensures
            r.0.rows@ == self.rows(),
            r.0.updates@ == self.updates(),
            r.0.missing == self.missing(),
            r.1.wf(),
            r.1.limit() == self.limit(),
            r.1@ == kept(self.cached(), ids_of(self.items()).to_set()),
            r.1@.len() <= self.items().len(),
            self.items().len() <= self.limit() ==> forall|j: int|
                0 <= j < self.rows().len() && !(#[trigger] self.rows()[j]).pending
                    ==> r.1@.contains(
                    (self.items()[j].id, self.rows()[j].thumb),
                ),
            self.undisturbed() ==> uncached(r.1@, self.items()) == self.missing(),
            roomy(self.start_entries(), self.limit(), self.items()) ==> roomy(
                r.1@,
                self.limit(),
                self.items(),
            ) && uncached(r.1@, self.items()) == self.missing(),
    {
        let mut cache = self.cache;
        let mut window: HashSet<u32> = HashSet::new();
        let mut i: usize = 0;
        while i < self.items.len()
            invariant
                i <= self.items@.len(),
                forall|id: u32|
                    window@.contains(id) <==> ids_of(self.items@).take(i as int).contains(id),
            decreases self.items@.len() - i,
        {
            let ghost seen = ids_of(self.items@).take(i as int);
            let ghost next = ids_of(self.items@).take(i + 1);
            window.insert(self.items[i].id);
            assert(next =~= seen.push(self.items@[i as int].id));
            assert forall|id: u32| window@.contains(id) <==> next.contains(id) by {
                if seen.contains(id) {
                    let k = seen.index_of(id);
                    assert(next[k] == id);
                }
                assert(next[i as int] == self.items@[i as int].id);
                if next.contains(id) && id != self.items@[i as int].id {
                    let k = next.index_of(id);
                    assert(seen[k] == id);
                }
            }
            i = i + 1;
        }
        let ghost ids = ids_of(self.items@);
        assert(ids.take(i as int) =~= ids);
        assert(window@ =~= ids.to_set());
        cache.retain_window(&window);
        proof {
            kept_members(self.cache@, ids.to_set());
            assert forall|p: int| 0 <= p < cache@.len() implies ids.contains(
                (#[trigger] cache@[p]).0,
            ) by {
                assert(cache@.contains(cache@[p]));
            }
            distinct_keys_fit(cache@, ids);
            if self.items@.len() <= self.limit() {
                assert forall|j: int| 0 <= j < self.rows().len() && !(#[trigger]
                self.rows()[j]).pending implies cache@.contains(
                    (self.items()[j].id, self.rows()[j].thumb),
                ) by {
                    let entry = (self.items()[j].id, self.rows()[j].thumb);
                    assert(stands_within(
                        self.cached(),
                        self.rows().len() as int,
                        entry.0,
                        entry.1,
                    ));
                    let p = choose|p: int|
                        0 <= p < self.rows().len() && p < self.cached().len() && #[trigger]
                        self.cached()[p] == entry;
                    assert(self.cached().contains(entry));
                    assert(ids[j] == entry.0);
                }
            }
            assert(roomy(self.start_entries(), self.limit(), self.items()) ==> self.undisturbed());
            if self.undisturbed() {
                assert forall|j: int| 0 <= j < self.items@.len() implies holds(
                    cache@,
                    (#[trigger] self.items@[j]).id,
                ) == holds(self.cache@, self.items@[j].id) by {
                    assert(ids[j] == self.items@[j].id);
                    kept_holds(self.cache@, ids.to_set(), self.items@[j].id);
                }
                same_uncached(self.cache@, cache@, self.items@);
                kept_is_not_longer(self.cache@, ids.to_set());
                assert(self.items().take(self.rows().len() as int) =~= self.items());
                pending_rows_are_uncached(cache@, self.items(), self.rows());
            }
        }
        (WindowBuild { rows: self.rows, updates: self.updates, missing: self.missing }, cache)
    }
}

proof fn waiting_rows_are_rows(rows: Seq<TileRow>)
    ensures
        waiting_rows(rows) <= rows.len(),
    decreases rows.len(),
{
    if rows.len() > 0 {
        waiting_rows_are_rows(rows.drop_last());
    }
}

proof fn entry_is_held(entries: Seq<(u32, u64)>, at: int)
    requires
        0 <= at < entries.len(),
    ensures
        holds(entries, entries[at].0),
{
    place_finds(entries, entries[at].0);
}

/// Using a key keeps what is held.
proof fn touched_holds(entries: Seq<(u32, u64)>, key: u32, other: u32)
    ensures
        holds(touched(entries, key), other) == holds(entries, other),
{
    place_finds(entries, key);
    place_finds(entries, other);
    let at = place(entries, key);
    let after = touched(entries, key);
    if at < entries.len() {
        place_finds(after, other);
        if holds(entries, other) {
            let p = place(entries, other);
            let q = if p == at {
                0
            } else if p < at {
                p + 1
            } else {
                p
            };
            assert(after[q] == entries[p]);
            entry_is_held(after, q);
        }
        if holds(after, other) {
            let q = place(after, other);
            let p = if q == 0 {
                at
            } else if q - 1 < at {
                q - 1
            } else {
                q
            };
            assert(after[q] == entries[p]);
            entry_is_held(entries, p);
        }
    }
}

/// An entry moves back by one place at most when a key is used.
proof fn touched_stands(entries: Seq<(u32, u64)>, key: u32, bound: int, id: u32, image: u64)
    requires
        stands_within(entries, bound, id, image),
    ensures
        stands_within(touched(entries, key), bound + 1, id, image),
{
    place_finds(entries, key);
    let at = place(entries, key);
    let p = choose|p: int| 0 <= p < bound && p < entries.len()
        && #[trigger] entries[p] == (id, image);
    let after = touched(entries, key);
    if at < entries.len() {
        let q = if p == at {
            0
        } else if p < at {
            p + 1
        } else {
            p
        };
        assert(after[q] == (id, image));
    } else {
        assert(after[p] == (id, image));
    }
}

/// A new key adds itself to what is held, where there is room.
proof fn stored_holds(entries: Seq<(u32, u64)>, limit: nat, key: u32, value: u64, other: u32)
    requires
        !holds(entries, key),
        entries.len() < limit,
    ensures
        holds(stored(entries, limit, key, value), other) == (other == key || holds(entries, other)),
{
    place_finds(entries, other);
    let after = stored(entries, limit, key, value);
    place_finds(after, other);
    assert(after[0].0 == key);
    if other == key {
        entry_is_held(after, 0);
    } else {
        if holds(entries, other) {
            let p = place(entries, other);
            assert(after[p + 1] == entries[p]);
            entry_is_held(after, p + 1);
        }
        if holds(after, other) {
            let q = place(after, other);
            assert(after[q] == entries[q - 1]);
            entry_is_held(entries, q - 1);
        }
    }
}

/// A new key in a full cache adds itself to what is held and takes the place of the last
/// entry.
proof fn stored_in_place_of_the_last(
    entries: Seq<(u32, u64)>,
    limit: nat,
    key: u32,
    value: u64,
    other: u32,
)
    requires
        !holds(entries, key),
        entries.len() == limit,
        limit > 0,
        other != entries.last().0,
    ensures
        holds(stored(entries, limit, key, value), other) == (other == key || holds(entries, other)),
{
    place_finds(entries, other);
    place_finds(entries, key);
    let after = stored(entries, limit, key, value);
    place_finds(after, other);
    assert(after[0].0 == key);
    if other == key {
        entry_is_held(after, 0);
    } else {
        if holds(entries, other) {
            let p = place(entries, other);
            assert(p < entries.len() - 1);
            assert(after[p + 1] == entries[p]);
            entry_is_held(after, p + 1);
        }
        if holds(after, other) {
            let q = place(after, other);
            assert(after[q] == entries[q - 1]);
            entry_is_held(entries, q - 1);
        }
    }
}

/// An entry moves back by one place when a new key is stored, and is not forgotten while it
/// is not the last one of a full cache.
proof fn stored_stands(
    entries: Seq<(u32, u64)>,
    limit: nat,
    key: u32,
    value: u64,
    bound: int,
    id: u32,
    image: u64,
)
    requires
        !holds(entries, key),
        entries.len() <= limit,
        bound < limit,
        stands_within(entries, bound, id, image),
    ensures
        stands_within(stored(entries, limit, key, value), bound + 1, id, image),
{
    let p = choose|p: int| 0 <= p < bound && p < entries.len()
        && #[trigger] entries[p] == (id, image);
    place_finds(entries, key);
    let after = stored(entries, limit, key, value);
    assert(after[p + 1] == (id, image));
}

/// Distinct keys out of a list are not more than the list.
proof fn distinct_keys_fit(entries: Seq<(u32, u64)>, ids: Seq<u32>)
    requires
        distinct(entries),
        forall|p: int| 0 <= p < entries.len() ==> ids.contains((#[trigger] entries[p]).0),
    ensures
        entries.len() <= ids.len(),
{
    let keys = entries.map_values(|entry: (u32, u64)| entry.0);
    assert(keys.no_duplicates()) by {
        assert forall|i: int, j: int| 0 <= i < keys.len() && 0 <= j < keys.len() && i != j implies
            keys[i] != keys[j] by {
            if i < j {
                assert(entries[i].0 != entries[j].0);
            } else {
                assert(entries[j].0 != entries[i].0);
            }
        }
    }
    keys.unique_seq_to_set();
    ids.lemma_cardinality_of_set();
    assert(keys.to_set().subset_of(ids.to_set())) by {
        assert forall|id: u32| keys.to_set().contains(id) implies ids.to_set().contains(id) by {
            let p = choose|p: int| 0 <= p < keys.len() && keys[p] == id;
            assert(ids.contains(entries[p].0));
        }
    }
    vstd::set_lib::lemma_len_subset(keys.to_set(), ids.to_set());
}

/// Caches that hold the same rows lack the same number of them.
proof fn same_uncached(entries: Seq<(u32, u64)>, others: Seq<(u32, u64)>, items: Seq<TileItem>)
    requires
        forall|j: int|
            0 <= j < items.len() ==> holds(others, (#[trigger] items[j]).id) == holds(
                entries,
                items[j].id,
            ),
    ensures
        uncached(others, items) == uncached(entries, items),
    decreases items.len(),
{
    if items.len() > 0 {
        let shorter = items.drop_last();
        assert(items[items.len() - 1] == items.last());
        assert forall|j: int| 0 <= j < shorter.len() implies holds(
            others,
            (#[trigger] shorter[j]).id,
        ) == holds(entries, shorter[j].id) by {
            assert(items[j] == shorter[j]);
        }
        same_uncached(entries, others, shorter);
    }
}

/// A cache that holds one row more lacks one less.
proof fn one_fewer_uncached(
    entries: Seq<(u32, u64)>,
    more: Seq<(u32, u64)>,
    items: Seq<TileItem>,
    at: int,
)
    requires
        0 <= at < items.len(),
        ids_of(items).no_duplicates(),
        !holds(entries, items[at].id),
        forall|id: u32| #[trigger]
            holds(more, id) == (id == items[at].id || holds(entries, id)),
    ensures
        uncached(more, items) + 1 == uncached(entries, items),
    decreases items.len(),
{
    let shorter = items.drop_last();
    let ids = ids_of(items);
    assert(items[items.len() - 1] == items.last());
    assert(ids[at] == items[at].id);
    if at == shorter.len() {
        assert forall|j: int| 0 <= j < shorter.len() implies holds(more, (#[trigger] shorter[j]).id)
            == holds(entries, shorter[j].id) by {
            assert(ids[j] == shorter[j].id);
            assert(ids[j] != ids[at]);
        }
        same_uncached(entries, more, shorter);
    } else {
        assert(ids_of(shorter) =~= ids.drop_last());
        assert(shorter[at] == items[at]);
        assert(ids[items.len() - 1] != ids[at]);
        one_fewer_uncached(entries, more, shorter, at);
    }
}

/// A row that a cache lacks is among those that it lacks.
proof fn some_uncached(entries: Seq<(u32, u64)>, items: Seq<TileItem>, at: int)
    requires
        0 <= at < items.len(),
        !holds(entries, items[at].id),
    ensures
        uncached(entries, items) > 0,
    decreases items.len(),
{
    if at < items.len() - 1 {
        assert(items.drop_last()[at] == items[at]);
        some_uncached(entries, items.drop_last(), at);
    } else {
        assert(items.last() == items[at]);
    }
}

/// The rows that a cache has images of.
spec fn cached_ids(entries: Seq<(u32, u64)>, items: Seq<TileItem>) -> Seq<u32>
    decreases items.len(),
{
    if items.len() == 0 {
        Seq::empty()
    } else if holds(entries, items.last().id) {
        cached_ids(entries, items.drop_last()).push(items.last().id)
    } else {
        cached_ids(entries, items.drop_last())
    }
}

proof fn cached_ids_are_the_others(entries: Seq<(u32, u64)>, items: Seq<TileItem>)
    ensures
        cached_ids(entries, items).len() + uncached(entries, items) == items.len(),
        forall|j: int|
            0 <= j < items.len() && holds(entries, (#[trigger] items[j]).id) ==> cached_ids(
                entries,
                items,
            ).contains(items[j].id),
    decreases items.len(),
{
    if items.len() > 0 {
        let shorter = items.drop_last();
        let before = cached_ids(entries, shorter);
        let ids = cached_ids(entries, items);
        cached_ids_are_the_others(entries, shorter);
        assert forall|j: int| 0 <= j < items.len() && holds(
            entries,
            (#[trigger] items[j]).id,
        ) implies ids.contains(items[j].id) by {
            if j < shorter.len() {
                assert(shorter[j] == items[j]);
                let p = before.index_of(items[j].id);
                assert(ids[p] == items[j].id);
            } else {
                assert(ids[before.len() as int] == items[j].id);
            }
        }
    }
}

/// A cache that holds nothing but rows of the window has room for the others where there is
/// room for the window.
pub proof fn caches_of_the_window_are_roomy(
    entries: Seq<(u32, u64)>,
    limit: nat,
    items: Seq<TileItem>,
)
    requires
        distinct(entries),
        items.len() <= limit,
        ids_of(items).no_duplicates(),
        forall|id: u32| #[trigger] holds(entries, id) ==> ids_of(items).contains(id),
    ensures
        roomy(entries, limit, items),
{
    cached_ids_are_the_others(entries, items);
    let ids = cached_ids(entries, items);
    assert forall|p: int| 0 <= p < entries.len() implies ids.contains((#[trigger] entries[p]).0) by {
        entry_is_held(entries, p);
        let j = ids_of(items).index_of(entries[p].0);
        assert(items[j].id == entries[p].0);
    }
    distinct_keys_fit(entries, ids);
}

proof fn kept_is_not_longer(entries: Seq<(u32, u64)>, window: Set<u32>)
    ensures
        kept(entries, window).len() <= entries.len(),
    decreases entries.len(),
{
    if entries.len() > 0 {
        kept_is_not_longer(entries.drop_last(), window);
    }
}

/// What is kept is what was there and is in the window.
proof fn kept_members(entries: Seq<(u32, u64)>, window: Set<u32>)
    ensures
        forall|entry: (u32, u64)| #[trigger]
            kept(entries, window).contains(entry) <==> entries.contains(entry) && window.contains(
                entry.0,
            ),
    decreases entries.len(),
{
    if entries.len() > 0 {
        let rest = entries.drop_last();
        let last = entries.last();
        kept_members(rest, window);
        let all = kept(entries, window);
        assert forall|entry: (u32, u64)| #[trigger] all.contains(entry) <==> entries.contains(entry)
            && window.contains(entry.0) by {
            let before = kept(rest, window);
            assert(before.contains(entry) <==> rest.contains(entry) && window.contains(entry.0));
            assert(entries =~= rest.push(last));
            pushed_contains(rest, last, entry);
            pushed_contains(before, last, entry);
        }
    }
}

proof fn pushed_contains(list: Seq<(u32, u64)>, last: (u32, u64), entry: (u32, u64))
    ensures
        list.push(last).contains(entry) <==> list.contains(entry) || entry == last,
{
    let all = list.push(last);
    assert(all[list.len() as int] == last);
    if list.contains(entry) {
        let p = list.index_of(entry);
        assert(all[p] == entry);
    }
    if all.contains(entry) && entry != last {
        let p = all.index_of(entry);
        assert(list[p] == entry);
    }
}

/// A key is held after a window is kept if it was held and is in the window.
proof fn kept_holds(entries: Seq<(u32, u64)>, window: Set<u32>, key: u32)
    ensures
        holds(kept(entries, window), key) == (holds(entries, key) && window.contains(key)),
{
    kept_members(entries, window);
    let after = kept(entries, window);
    place_finds(entries, key);
    place_finds(after, key);
    if holds(after, key) {
        let entry = after[place(after, key)];
        assert(after.contains(entry));
        let p = entries.index_of(entry);
        entry_is_held(entries, p);
    }
    if holds(entries, key) && window.contains(key) {
        let entry = entries[place(entries, key)];
        assert(entries.contains(entry));
        assert(after.contains(entry));
        let p = after.index_of(entry);
        entry_is_held(after, p);
    }
}

/// Where the rows without an image in the cache are those that wait, their number is that of
/// the rows that wait.
proof fn pending_rows_are_uncached(
    entries: Seq<(u32, u64)>,
    items: Seq<TileItem>,
    rows: Seq<TileRow>,
)
    requires
        items.len() == rows.len(),
        forall|j: int|
            0 <= j < rows.len() ==> holds(entries, items[j].id) == !(#[trigger] rows[j]).pending,
    ensures
        uncached(entries, items) == waiting_rows(rows),
    decreases items.len(),
{
    if items.len() > 0 {
        let shorter = rows.drop_last();
        assert forall|j: int| 0 <= j < shorter.len() implies holds(entries, items.drop_last()[j].id)
            == !(#[trigger] shorter[j]).pending by {
            assert(rows[j] == shorter[j]);
        }
        pending_rows_are_uncached(entries, items.drop_last(), shorter);
        assert(rows[rows.len() - 1] == rows.last());
    }
}

/// Nothing stays but what is in the window, and so not more than the window has.
pub proof fn nothing_outside_the_window_stays(entries: Seq<(u32, u64)>, window: Seq<u32>)
    requires
        distinct(entries),
    ensures
        forall|p: int|
            0 <= p < kept(entries, window.to_set()).len() ==> window.contains(
                (#[trigger] kept(entries, window.to_set())[p]).0,
            ),
        kept(entries, window.to_set()).len() <= window.len(),
{
    let after = kept(entries, window.to_set());
    kept_members(entries, window.to_set());
    assert forall|p: int| 0 <= p < after.len() implies window.contains((#[trigger] after[p]).0) by {
        assert(after.contains(after[p]));
    }
    kept_keeps_distinct(entries, window.to_set());
    distinct_keys_fit(after, window);
}

proof fn kept_keeps_distinct(entries: Seq<(u32, u64)>, window: Set<u32>)
    requires
        distinct(entries),
    ensures
        distinct(kept(entries, window)),
    decreases entries.len(),
{
    if entries.len() > 0 {
        let rest = entries.drop_last();
        assert(distinct(rest)) by {
            assert forall|i: int, j: int| 0 <= i < j < rest.len() implies (#[trigger] rest[i]).0
                != (#[trigger] rest[j]).0 by {
                assert(entries[i].0 != entries[j].0);
            }
        }
        kept_keeps_distinct(rest, window);
        kept_members(rest, window);
        let before = kept(rest, window);
        let after = kept(entries, window);
        if window.contains(entries.last().0) {
            assert forall|i: int, j: int| 0 <= i < j < after.len() implies (#[trigger] after[i]).0
                != (#[trigger] after[j]).0 by {
                assert(after[i] == before[i]);
                if j < before.len() {
                    assert(after[j] == before[j]);
                } else {
                    assert(before.contains(before[i]));
                    let p = rest.index_of(before[i]);
                    assert(entries[p].0 != entries[entries.len() - 1].0);
                }
            }
        }
    }
}

/// Keeping a window a second time changes nothing.
pub proof fn keeping_twice_is_keeping_once(entries: Seq<(u32, u64)>, window: Set<u32>)
    ensures
        kept(kept(entries, window), window) == kept(entries, window),
    decreases entries.len(),
{
    if entries.len() > 0 {
        keeping_twice_is_keeping_once(entries.drop_last(), window);
        if window.contains(entries.last().0) {
            let before = kept(entries.drop_last(), window);
            assert(before.push(entries.last()).drop_last() =~= before);
        }
    }
}

/// Rows wait for their image only once a pass has loaded all that it may.
pub proof fn rows_wait_only_for_the_budget(pass: WindowPass)
    requires
        pass.wf(),
    ensures
        pass.loads() <= THUMB_LOAD_BUDGET,
        pass.missing() > 0 ==> pass.loads() == THUMB_LOAD_BUDGET,
        pass.missing() == waiting_rows(pass.rows()),
{
}

/// Each pass over the same window loads as many of the images that are not there as it may,
/// and the next pass begins with those that are left. So every image is looked for in the
/// end. This is so wherever the pass has not forgotten the image of a row of the window.
pub proof fn each_pass_closes_gaps(pass: WindowPass)
    requires
        pass.wf(),
        !pass.loading(),
        pass.rows().len() == pass.items().len(),
        pass.undisturbed(),
    ensures
        pass.missing() == if uncached(pass.start_entries(), pass.items()) > THUMB_LOAD_BUDGET {
            uncached(pass.start_entries(), pass.items()) - THUMB_LOAD_BUDGET
        } else {
            0
        },
        uncached(pass.cached(), pass.items()) == pass.missing(),
{
    assert(pass.items().take(pass.rows().len() as int) =~= pass.items());
    pending_rows_are_uncached(pass.cached(), pass.items(), pass.rows());
}

/// A pass forgets nothing where the cache has room for all that it lacks.
pub proof fn roomy_caches_forget_nothing(pass: WindowPass)
    requires
        pass.wf(),
        roomy(pass.start_entries(), pass.limit(), pass.items()),
    ensures
        pass.evicted().len() == 0,
        pass.undisturbed(),
{
}

/// Six images are loaded in a pass, 16 milliseconds lie between two passes, and nought is the
/// number of no image.
pub proof fn bounds_of_a_pass()
    ensures
        THUMB_LOAD_BUDGET == 6,
        FILL_INTERVAL_MS == 16,
        EMPTY_IMAGE == 0,
{
}

/// A key is held where an entry has it.
pub proof fn held_keys_have_an_entry(entries: Seq<(u32, u64)>, key: u32)
    ensures
        holds(entries, key) <==> exists|i: int|
            0 <= i < entries.len() && (#[trigger] entries[i]).0 == key,
{
    place_finds(entries, key);
    if exists|i: int| 0 <= i < entries.len() && (#[trigger] entries[i]).0 == key {
        let i = choose|i: int| 0 <= i < entries.len() && (#[trigger] entries[i]).0 == key;
        entry_is_held(entries, i);
    }
}

/// Of the entries those in the window stay, in their order.
pub proof fn entries_of_the_window_stay_in_order(
    entries: Seq<(u32, u64)>,
    entry: (u32, u64),
    window: Set<u32>,
)
    ensures
        kept(Seq::<(u32, u64)>::empty(), window).len() == 0,
        window.contains(entry.0) ==> kept(entries.push(entry), window) == kept(
            entries,
            window,
        ).push(entry),
        !window.contains(entry.0) ==> kept(entries.push(entry), window) == kept(entries, window),
{
    assert(entries.push(entry).drop_last() =~= entries);
}

/// A row shows its asset: its number and kind, its name or else its number, a colour of eight
/// by turns, and how a text begins.
pub proof fn rows_show_their_assets(row: TileRow, item: TileItem)
    requires
        row.shows(item),
    ensures
        row.asset_id == item.id as i32,
        item.name@.len() > 0 ==> row.label@ == item.name@,
        item.name@.len() == 0 ==> row.label@ == "#"@ + decimal(item.id as nat),
        row.preview@ == item.preview@,
        item.kind == AssetKind::Image <==> row.kind == 0,
        item.kind == AssetKind::Video <==> row.kind == 1,
        item.kind == AssetKind::Text <==> row.kind == 2,
        item.kind == AssetKind::Other <==> row.kind == 3,
        item.id % 8 == 0 ==> row.color == 0xFF4C6EF5,
        item.id % 8 == 1 ==> row.color == 0xFFF76707,
        item.id % 8 == 2 ==> row.color == 0xFF20C997,
        item.id % 8 == 3 ==> row.color == 0xFFBE4BDB,
        item.id % 8 == 4 ==> row.color == 0xFF228BE6,
        item.id % 8 == 5 ==> row.color == 0xFFFFA8A8,
        item.id % 8 == 6 ==> row.color == 0xFF82C91E,
        item.id % 8 == 7 ==> row.color == 0xFFFAB005,
{
}

/// Rows without an image, and rows that wait for one, are counted one by one.
pub proof fn gaps_are_counted_one_by_one(
    entries: Seq<(u32, u64)>,
    items: Seq<TileItem>,
    item: TileItem,
    rows: Seq<TileRow>,
    row: TileRow,
)
    ensures
        uncached(entries, Seq::<TileItem>::empty()) == 0,
        uncached(entries, items.push(item)) == uncached(entries, items) + (if exists|i: int|
            0 <= i < entries.len() && (#[trigger] entries[i]).0 == item.id {
            0int
        } else {
            1int
        }),
        waiting_rows(Seq::<TileRow>::empty()) == 0,
        row.pending ==> waiting_rows(rows.push(row)) == waiting_rows(rows) + 1,
        !row.pending ==> waiting_rows(rows.push(row)) == waiting_rows(rows),
{
    assert(items.push(item).drop_last() =~= items);
    assert(rows.push(row).drop_last() =~= rows);
    held_keys_have_an_entry(entries, item.id);
}

/// A row that is added stands behind the others, for the next item, with the image it was given
/// and as one that waits or does not.
pub proof fn added_rows_stand_behind_the_others(
    pass: &WindowPass,
    before: &WindowPass,
    thumb: u64,
    pending: bool,
)
    requires
        pass.adds_row(before, thumb, pending),
    ensures
        pass.rows().len() == before.rows().len() + 1,
        pass.rows().drop_last() == before.rows(),
        pass.rows().last().shows(pass.items()[before.rows().len() as int]),
        pass.rows().last().thumb == thumb,
        pass.rows().last().pending == pending,
{
}

/// What is spared: no row of the window stands twice, and none of what was forgotten is among
/// them. What is roomy: no row stands twice, and all that is lacking fits beside what is there.
pub proof fn spared_and_roomy_windows(
    evicted: Seq<u32>,
    items: Seq<TileItem>,
    entries: Seq<(u32, u64)>,
    limit: nat,
    id: u32,
)
    ensures
        spared(evicted, items) && evicted.contains(id) ==> forall|j: int|
            0 <= j < items.len() ==> (#[trigger] items[j]).id != id,
        roomy(entries, limit, items) ==> entries.len() + uncached(entries, items) <= limit,
        spared(evicted, items) || roomy(entries, limit, items) ==> forall|i: int, j: int|
            0 <= i < j < items.len() ==> (#[trigger] items[i]).id != (#[trigger] items[j]).id,
{
    let ids = ids_of(items);
    assert forall|i: int, j: int|
        0 <= i < j < items.len() && ids.no_duplicates() implies (#[trigger] items[i]).id != (
    #[trigger] items[j]).id by {
        assert(ids[i] != ids[j]);
    }
    if spared(evicted, items) && evicted.contains(id) {
        let k = choose|k: int| 0 <= k < evicted.len() && evicted[k] == id;
        assert(!ids.contains(evicted[k]));
        assert forall|j: int| 0 <= j < items.len() implies (#[trigger] items[j]).id != id by {
            assert(ids[j] == items[j].id);
            assert(ids.contains(ids[j]));
        }
    }
}

} // verus!
