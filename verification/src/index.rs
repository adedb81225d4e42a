//! A faceted index of assets.
//!
//! Assets are rows of a table, addressed by their id. Which of them are live, and which
//! carry a tag or belong to a category, is kept in bitmaps; a filter is evaluated by
//! set operations on these. Rows in the trash keep their data but no query sees them,
//! other than the one that asks for the trash.

use std::collections::HashMap;

use roaring::RoaringBitmap;
use vstd::prelude::*;
#[allow(unused_imports)]
use vstd::utf8::encode_utf8;

use crate::bitmap::{copy_of, difference, intersection, members, unite};
#[allow(unused_imports)]
use crate::bitmap::{ascending, ids};
use crate::domain::{
    rank_by, Asset, AssetId, AssetKind, CategoryId, Filter, Rank, SortSpec, Sortable, Sorter, TagId,
};
#[allow(unused_imports)]
use crate::domain::{
    alike_in_every_key, first_key_that_differs_decides, may_precede, sort_order_is_total,
    sort_order_is_transitive, SortDirection, SortField, Traits,
};
use crate::order::{sorted_positions, Ranked};
#[allow(unused_imports)]
use crate::order::{before, in_order, is_permutation, stable_sort, stably_reads};
use crate::text::{contains_case_fold, fold_lower};
#[allow(unused_imports)]
use crate::text::{
    folded, needles_are_found_where_they_come_from, occurs_in, trimmed,
    trimming_cuts_white_space_off, whitespace,
};

verus! {

/// The index. An id is a row number.
pub struct FacetIndex {
    names: Vec<String>,
    categories: Vec<Option<u32>>,
    created_at: Vec<i64>,
    sizes: Vec<Option<u64>>,
    kinds: Vec<AssetKind>,
    by_category: HashMap<u32, RoaringBitmap>,
    by_tag: HashMap<u32, RoaringBitmap>,
    /// The live rows: those that queries see.
    all: RoaringBitmap,
    /// The rows in the trash.
    deleted: RoaringBitmap,
    tag_counts_cache: Option<HashMap<u32, u64>>,
}

/// The data of a row.
pub struct Row {
    pub name: Seq<char>,
    pub category: Option<u32>,
    pub created_at: i64,
    pub size_bytes: Option<u64>,
    pub kind: AssetKind,
}

/// What a row that was never written reads as.
pub open spec fn blank_row() -> Row {
    Row {
        name: Seq::empty(),
        category: None,
        created_at: 0,
        size_bytes: None,
        kind: AssetKind::Other,
    }
}

pub open spec fn category_number(category: Option<CategoryId>) -> Option<u32> {
    match category {
        Some(c) => Some(c.0),
        None => None,
    }
}

/// The row that an asset is stored as.
pub open spec fn row_of(asset: Asset) -> Row {
    Row {
        name: asset.name@,
        category: category_number(asset.category),
        created_at: asset.created_at,
        size_bytes: asset.size_bytes,
        kind: asset.kind,
    }
}

/// The members filed under a key.
spec fn filed(map: Map<u32, RoaringBitmap>, key: u32) -> Set<u32> {
    if map.contains_key(key) {
        ids(map[key])
    } else {
        Set::empty()
    }
}

/// `counts` gives the size of every set that has members, and nothing else.
pub open spec fn counts_members(
    counts: Map<u32, u64>,
    sets: spec_fn(u32) -> Set<u32>,
) -> bool {
    &&& forall|key: u32| #[trigger]
        counts.contains_key(key) <==> sets(key) != Set::<u32>::empty()
    &&& forall|key: u32| #[trigger]
        counts.contains_key(key) ==> counts[key] == sets(key).len()
}

proof fn filled_sets_have_members(counts: Map<u32, u64>, sets: spec_fn(u32) -> Set<u32>)
    requires
        counts_members(counts, sets),
    ensures
        forall|key: u32| #[trigger]
            counts.contains_key(key) <==> exists|id: u32| #[trigger] sets(key).contains(id),
{
    assert forall|key: u32| #[trigger]
        counts.contains_key(key) <==> exists|id: u32| #[trigger] sets(key).contains(id) by {
        if sets(key) != Set::<u32>::empty() {
            assert(!(sets(key) =~= Set::<u32>::empty()));
        }
    }
}

impl FacetIndex {
    /// The ids that queries see.
    pub closed spec fn live(&self) -> Set<u32> {
        ids(self.all)
    }

    /// The ids in the trash.
    pub closed spec fn trash(&self) -> Set<u32> {
        ids(self.deleted)
    }

    /// The data stored for an id.
    pub closed spec fn row(&self, id: u32) -> Row {
        if id < self.names@.len() {
            Row {
                name: self.names@[id as int]@,
                category: self.categories@[id as int],
                created_at: self.created_at@[id as int],
                size_bytes: self.sizes@[id as int],
                kind: self.kinds@[id as int],
            }
        } else {
            blank_row()
        }
    }

    /// The ids that carry a tag.
    pub closed spec fn tagged(&self, tag: u32) -> Set<u32> {
        filed(self.by_tag@, tag)
    }

    /// The live ids whose row names the category.
    pub open spec fn in_category(&self, category: u32) -> Set<u32> {
        self.live().filter(|id: u32| self.row(id).category == Some(category))
    }

    spec fn rows_aligned(&self) -> bool {
        &&& self.categories@.len() == self.names@.len()
        &&& self.created_at@.len() == self.names@.len()
        &&& self.sizes@.len() == self.names@.len()
        &&& self.kinds@.len() == self.names@.len()
    }

    spec fn counts_cached(&self) -> bool {
        match self.tag_counts_cache {
            Some(counts) => counts_members(counts@, |tag: u32| self.tagged(tag)),
            None => true,
        }
    }

    /// The invariant: columns of one length; live and trash disjoint and within the
    /// table; category bitmaps that agree with the rows; tags on live rows only; a
    /// cache, where there is one, of the true counts.
    pub closed spec fn wf(&self) -> bool {
        &&& self.rows_aligned()
        &&& self.live().disjoint(self.trash())
        &&& forall|id: u32| #[trigger] self.live().contains(id) ==> id < self.names@.len()
        &&& forall|id: u32| #[trigger] self.trash().contains(id) ==> id < self.names@.len()
        &&& forall|category: u32|
            #[trigger] filed(self.by_category@, category) == self.in_category(category)
        &&& forall|tag: u32| #[trigger] self.tagged(tag).subset_of(self.live())
        &&& self.counts_cached()
    }

    /// An id that is live or in the trash.
    pub open spec fn visible(&self, id: u32) -> bool {
        self.live().contains(id) || self.trash().contains(id)
    }

    /// What sorting sees of an id.
    pub open spec fn traits(&self, id: u32) -> Traits {
        Traits {
            name: if self.visible(id) {
                self.row(id).name
            } else {
                Seq::empty()
            },
            created_at: self.row(id).created_at,
            size_bytes: self.row(id).size_bytes,
            kind: if self.visible(id) {
                self.row(id).kind
            } else {
                AssetKind::Other
            },
        }
    }

    /// The order of ids that a sorter stands for.
    pub open spec fn id_order(&self, sorter: Sorter) -> spec_fn(u32, u32) -> bool {
        |a: u32, b: u32| may_precede(sorter.keys@, self.traits(a), self.traits(b))
    }

    /// A live row whose folded name holds the folded text; blank text finds nothing.
    pub open spec fn name_matches(&self, id: u32, needle: Seq<char>) -> bool {
        &&& self.live().contains(id)
        &&& folded(trimmed(needle)).len() > 0
        &&& occurs_in(folded(trimmed(needle)), folded(self.row(id).name))
    }

    /// What a filter selects.
    pub open spec fn accepts(&self, filter: Filter, id: u32) -> bool
        decreases filter,
    {
        match filter {
            Filter::All => self.live().contains(id),
            Filter::InCategory(category) => self.in_category(category.0).contains(id),
            Filter::HasTag(tag) => self.tagged(tag.0).contains(id),
            Filter::NameContains(needle) => self.name_matches(id, needle@),
            Filter::NameIn(list) => list@.contains(id) && self.live().contains(id),
            Filter::Trash => self.trash().contains(id),
            Filter::Not(inner) => self.live().contains(id) && !self.accepts(*inner, id),
            Filter::AllOf(filters) => {
                &&& filters@.len() == 0 ==> self.live().contains(id)
                &&& forall|i: int|
                    0 <= i < filters@.len() ==> self.accepts(#[trigger] filters@[i], id)
            },
            Filter::AnyOf(filters) => exists|i: int|
                0 <= i < filters@.len() && self.accepts(#[trigger] filters@[i], id),
        }
    }

    /// The ids that a filter selects.
    pub open spec fn selected(&self, filter: Filter) -> Set<u32> {
        Set::new(|id: u32| self.accepts(filter, id))
    }

    /// Two indexes with the same contents.
    pub open spec fn same_contents(&self, other: &FacetIndex) -> bool {
        &&& other.live() == self.live()
        &&& other.trash() == self.trash()
        &&& forall|id: u32| #[trigger] other.row(id) == self.row(id)
        &&& forall|tag: u32| #[trigger] other.tagged(tag) == self.tagged(tag)
    }
}

/// The keys of `map`.
fn keys_of(map: &HashMap<u32, RoaringBitmap>) -> (keys: Vec<u32>)
    ensures
        forall|key: u32| #[trigger] keys@.contains(key) <==> map@.contains_key(key),
{
    broadcast use vstd::std_specs::hash::group_hash_axioms;

    let mut keys: Vec<u32> = Vec::new();
    for key in it: map.keys()
        invariant
            it.seq().unref().to_set() == map@.dom(),
            keys@.len() == it.index(),
            forall|i: int| 0 <= i < it.index() ==> keys@[i] == #[trigger] it.seq().unref()[i],
            forall|i: int|
                0 <= i < it.index() ==> map@.contains_key(#[trigger] keys@[i]),
    {
        proof {
            assert(it.seq().unref()[it.index() as int] == *key);
            assert(it.seq().unref().contains(*key));
            assert(it.seq().unref().to_set().contains(*key));
        }
        keys.push(*key);
    }
    proof {
        assert forall|key: u32| map@.contains_key(key) implies #[trigger] keys@.contains(key) by {
            assert(map@.dom().contains(key));
        }
    }
    keys
}

/// Takes `id` out of every set of `map`.
fn withdraw(map: &mut HashMap<u32, RoaringBitmap>, id: u32)
    ensures
        forall|key: u32| #[trigger] filed(final(map)@, key) == filed(old(map)@, key).remove(id),
{
    broadcast use vstd::std_specs::hash::group_hash_axioms;

    let ghost start = map@;
    let keys = keys_of(map);
    let mut i: usize = 0;
    while i < keys.len()
        invariant
            i <= keys@.len(),
            forall|key: u32| #[trigger] map@.contains_key(key) <==> start.contains_key(key),
            forall|key: u32|
                #![trigger filed(map@, key)]
                keys@.take(i as int).contains(key) ==> filed(map@, key) == filed(
                    start,
                    key,
                ).remove(id),
            forall|key: u32|
                #![trigger filed(map@, key)]
                !keys@.take(i as int).contains(key) ==> filed(map@, key) == filed(start, key),
        decreases keys@.len() - i,
    {
        let key: u32 = keys[i];
        let ghost was = map@;
        let ghost done = keys@.take(i as int);
        let found = map.remove(&key);
        if let Some(mut bitmap) = found {
            bitmap.remove(id);
            map.insert(key, bitmap);
        }
        proof {
            let next = keys@.take(i + 1);
            assert(next =~= done.push(key));
            assert forall|k: u32| #[trigger] next.contains(k) <==> done.contains(k) || k == key by {
                if done.contains(k) {
                    let p = choose|p: int| 0 <= p < done.len() && done[p] == k;
                    assert(next[p] == k);
                }
                assert(next[i as int] == key);
            }
            assert(filed(was, key).remove(id).remove(id) =~= filed(was, key).remove(id));
            assert(filed(start, key).remove(id).remove(id) =~= filed(start, key).remove(id));
            assert(filed(map@, key) =~= filed(was, key).remove(id));
            assert forall|k: u32| k != key implies #[trigger] filed(map@, k) == filed(was, k) by {}
        }
        i = i + 1;
    }
    proof {
        assert(keys@.take(keys@.len() as int) =~= keys@);
        assert forall|key: u32| #[trigger] filed(map@, key) == filed(start, key).remove(id) by {
            if !start.contains_key(key) {
                assert(filed(start, key).remove(id) =~= filed(start, key));
            } else {
                assert(keys@.contains(key));
            }
        }
    }
}

/// Adds `id` to the set filed under `key`.
fn file(map: &mut HashMap<u32, RoaringBitmap>, key: u32, id: u32)
    ensures
        forall|k: u32| #[trigger]
            filed(final(map)@, k) == if k == key {
                filed(old(map)@, k).insert(id)
            } else {
                filed(old(map)@, k)
            },
{
    broadcast use vstd::std_specs::hash::group_hash_axioms;

    let bitmap = map.entry(key).or_insert(RoaringBitmap::new());
    bitmap.insert(id);
}

impl FacetIndex {
    /// Every row but `id` reads in `after` as it does here.
    pub open spec fn other_rows_kept(&self, id: u32, after: &FacetIndex) -> bool {
        forall|k: u32| k != id ==> #[trigger] after.row(k) == self.row(k)
    }

    /// `after` is this index with `asset` written as a live row.
    pub open spec fn inserted(&self, asset: Asset, after: &FacetIndex) -> bool {
        let id = asset.id.0;
        &&& after.live() == self.live().insert(id)
        &&& after.trash() == self.trash().remove(id)
        &&& after.row(id) == row_of(asset)
        &&& self.other_rows_kept(id, after)
        &&& forall|tag: u32| #[trigger]
            after.tagged(tag) == if asset.tags@.contains(TagId(tag)) {
                self.tagged(tag).insert(id)
            } else {
                self.tagged(tag).remove(id)
            }
    }

    /// `after` is this index with `asset` written as a row in the trash.
    pub open spec fn inserted_as_deleted(&self, asset: Asset, after: &FacetIndex) -> bool {
        let id = asset.id.0;
        &&& after.live() == self.live().remove(id)
        &&& after.trash() == self.trash().insert(id)
        &&& after.row(id) == row_of(asset)
        &&& self.other_rows_kept(id, after)
        &&& forall|tag: u32| #[trigger] after.tagged(tag) == self.tagged(tag).remove(id)
    }

    /// `after` is this index without `id`.
    pub open spec fn removed(&self, id: u32, after: &FacetIndex) -> bool {
        &&& after.live() == self.live().remove(id)
        &&& after.trash() == self.trash().remove(id)
        &&& forall|k: u32| #[trigger] after.row(k) == self.row(k)
        &&& forall|tag: u32| #[trigger] after.tagged(tag) == self.tagged(tag).remove(id)
    }

    /// `after` is this index with the live row `id` moved to the trash.
    pub open spec fn marked(&self, id: u32, after: &FacetIndex) -> bool {
        &&& after.live() == self.live().remove(id)
        &&& after.trash() == self.trash().insert(id)
        &&& forall|k: u32| #[trigger] after.row(k) == self.row(k)
        &&& forall|tag: u32| #[trigger] after.tagged(tag) == self.tagged(tag).remove(id)
    }

    /// `after` is this index with the row `id` moved back from the trash.
    pub open spec fn unmarked(&self, id: u32, after: &FacetIndex) -> bool {
        &&& after.live() == self.live().insert(id)
        &&& after.trash() == self.trash().remove(id)
        &&& forall|k: u32| #[trigger] after.row(k) == self.row(k)
        &&& forall|tag: u32| #[trigger] after.tagged(tag) == self.tagged(tag)
    }

    /// An empty index.
    pub fn new() -> (r: FacetIndex)
        ensures
            r.wf(),
            r.live() == Set::<u32>::empty(),
            r.trash() == Set::<u32>::empty(),
            forall|id: u32| #[trigger] r.row(id) == blank_row(),
            forall|tag: u32| #[trigger] r.tagged(tag) == Set::<u32>::empty(),
            forall|id: u32|
                (#[trigger] r.row(id)).name.len() == 0 && r.row(id).category is None
                    && r.row(id).created_at == 0 && r.row(id).size_bytes is None && r.row(id).kind
                    == AssetKind::Other,
    {
        let r = FacetIndex {
            names: Vec::new(),
            categories: Vec::new(),
            created_at: Vec::new(),
            sizes: Vec::new(),
            kinds: Vec::new(),
            by_category: HashMap::new(),
            by_tag: HashMap::new(),
            all: RoaringBitmap::new(),
            deleted: RoaringBitmap::new(),
            tag_counts_cache: None,
        };
        proof {
            assert forall|category: u32| #[trigger]
                filed(r.by_category@, category) == r.in_category(category) by {
                assert(r.in_category(category) =~= Set::empty());
            }
        }
        r
    }

    /// Lengthens the table so that it has the row `row`; new rows are blank.
    fn ensure_row(&mut self, row: u32)
        requires
            old(self).rows_aligned(),
        ensures
            final(self).rows_aligned(),
            row < final(self).names@.len(),
            old(self).names@.len() <= final(self).names@.len(),
            forall|k: u32| #[trigger] final(self).row(k) == old(self).row(k),
            final(self).by_category == old(self).by_category,
            final(self).by_tag == old(self).by_tag,
            final(self).all == old(self).all,
            final(self).deleted == old(self).deleted,
            final(self).tag_counts_cache == old(self).tag_counts_cache,
    {
        let row: usize = row as usize;
        while self.names.len() <= row
            invariant
                self.rows_aligned(),
                old(self).names@.len() <= self.names@.len(),
                forall|k: u32| #[trigger] self.row(k) == old(self).row(k),
                self.by_category == old(self).by_category,
                self.by_tag == old(self).by_tag,
                self.all == old(self).all,
                self.deleted == old(self).deleted,
                self.tag_counts_cache == old(self).tag_counts_cache,
            decreases row + 1 - self.names@.len(),
        {
            let ghost was = *self;
            self.names.push(String::new());
            self.categories.push(None);
            self.created_at.push(0);
            self.sizes.push(None);
            self.kinds.push(AssetKind::Other);
            proof {
                assert forall|k: u32| #[trigger] self.row(k) == old(self).row(k) by {
                    assert(self.row(k) == was.row(k)) by {
                        assert(self.row(k).name =~= was.row(k).name);
                    }
                }
            }
        }
    }

    /// Writes the row of `asset`.
    fn write_row(&mut self, asset: &Asset)
        requires
            old(self).rows_aligned(),
        ensures
            final(self).rows_aligned(),
            asset.id.0 < final(self).names@.len(),
            old(self).names@.len() <= final(self).names@.len(),
            final(self).row(asset.id.0) == row_of(*asset),
            old(self).other_rows_kept(asset.id.0, final(self)),
            final(self).by_category == old(self).by_category,
            final(self).by_tag == old(self).by_tag,
            final(self).all == old(self).all,
            final(self).deleted == old(self).deleted,
            final(self).tag_counts_cache == old(self).tag_counts_cache,
    {
        self.ensure_row(asset.id.0);
        let row: usize = asset.id.0 as usize;
        let category: Option<u32> = match asset.category {
            Some(c) => Some(c.0),
            None => None,
        };
        let ghost was = *self;
        self.names.set(row, asset.name.clone());
        self.categories.set(row, category);
        self.created_at.set(row, asset.created_at);
        self.sizes.set(row, asset.size_bytes);
        self.kinds.set(row, asset.kind);
        proof {
            assert forall|k: u32| k != asset.id.0 implies #[trigger] self.row(k) == old(self).row(
                k,
            ) by {
                assert(self.row(k) == was.row(k));
            }
        }
    }

    /// Takes `id` out of the category and tag bitmaps.
    fn withdraw_facets(&mut self, id: u32)
        ensures
            forall|key: u32| #[trigger]
                filed(final(self).by_category@, key) == filed(old(self).by_category@, key).remove(
                    id,
                ),
            forall|key: u32| #[trigger]
                final(self).tagged(key) == old(self).tagged(key).remove(id),
            final(self).names == old(self).names,
            final(self).categories == old(self).categories,
            final(self).created_at == old(self).created_at,
            final(self).sizes == old(self).sizes,
            final(self).kinds == old(self).kinds,
            final(self).all == old(self).all,
            final(self).deleted == old(self).deleted,
            final(self).tag_counts_cache == old(self).tag_counts_cache,
    {
        withdraw(&mut self.by_category, id);
        withdraw(&mut self.by_tag, id);
        proof {
            assert forall|key: u32| #[trigger] self.tagged(key) == old(self).tagged(key).remove(
                id,
            ) by {
                assert(filed(self.by_tag@, key) == filed(old(self).by_tag@, key).remove(id));
            }
        }
    }

    /// Writes `asset` as a live row, over what stood there; a row in the trash comes
    /// back to life.
    pub fn insert(&mut self, asset: &Asset)
        requires
            old(self).wf(),
        ensures
            final(self).wf(),
            old(self).inserted(*asset, final(self)),
    {
        let id: u32 = asset.id.0;
        self.deleted.remove(id);
        if self.all.contains(id) {
            self.withdraw_facets(id);
        } else {
            self.all.insert(id);
        }
        let ghost bare = *self;
        proof {
            assert forall|key: u32| #[trigger]
                filed(bare.by_category@, key) == filed(old(self).by_category@, key).remove(id) by {
                if !old(self).live().contains(id) {
                    assert(filed(old(self).by_category@, key) == old(self).in_category(key));
                    assert(filed(old(self).by_category@, key).remove(id) =~= filed(
                        old(self).by_category@,
                        key,
                    ));
                }
            }
            assert forall|tag: u32| #[trigger] bare.tagged(tag) == old(self).tagged(tag).remove(
                id,
            ) by {
                if !old(self).live().contains(id) {
                    assert(old(self).tagged(tag).subset_of(old(self).live()));
                    assert(old(self).tagged(tag).remove(id) =~= old(self).tagged(tag));
                }
            }
            assert(bare.live() =~= old(self).live().insert(id));
        }
        self.write_row(asset);
        let ghost written = *self;
        if let Some(category) = asset.category {
            file(&mut self.by_category, category.0, id);
        }
        let ghost rows = *self;
        let mut i: usize = 0;
        while i < asset.tags.len()
            invariant
                i <= asset.tags@.len(),
                id == asset.id.0,
                self.names == rows.names,
                self.categories == rows.categories,
                self.created_at == rows.created_at,
                self.sizes == rows.sizes,
                self.kinds == rows.kinds,
                self.by_category == rows.by_category,
                self.all == rows.all,
                self.deleted == rows.deleted,
                rows.by_tag == bare.by_tag,
                forall|tag: u32| #[trigger] filed(bare.by_tag@, tag) == bare.tagged(tag),
                forall|tag: u32| #[trigger]
                    self.tagged(tag) == if asset.tags@.take(i as int).contains(TagId(tag)) {
                        bare.tagged(tag).insert(id)
                    } else {
                        bare.tagged(tag)
                    },
            decreases asset.tags@.len() - i,
        {
            let tag: TagId = asset.tags[i];
            let ghost was = *self;
            file(&mut self.by_tag, tag.0, id);
            proof {
                let seen = asset.tags@.take(i as int);
                let next = asset.tags@.take(i + 1);
                assert(next =~= seen.push(tag));
                assert forall|t: u32| #[trigger] self.tagged(t) == if next.contains(TagId(t)) {
                    bare.tagged(t).insert(id)
                } else {
                    bare.tagged(t)
                } by {
                    assert(was.tagged(t) == filed(was.by_tag@, t));
                    assert(filed(self.by_tag@, t) == if t == tag.0 {
                        filed(was.by_tag@, t).insert(id)
                    } else {
                        filed(was.by_tag@, t)
                    });
                    assert(next.contains(TagId(t)) <==> seen.contains(TagId(t)) || TagId(t) == tag)
                        by {
                        assert(next[i as int] == tag);
                        if seen.contains(TagId(t)) {
                            let p = choose|p: int| 0 <= p < seen.len() && seen[p] == TagId(t);
                            assert(next[p] == TagId(t));
                        }
                    }
                    assert(bare.tagged(t).insert(id).insert(id) =~= bare.tagged(t).insert(id));
                }
            }
            i = i + 1;
        }
        let ghost filled = *self;
        self.tag_counts_cache = None;
        proof {
            assert(asset.tags@.take(asset.tags@.len() as int) =~= asset.tags@);
            assert forall|k: u32| #[trigger] self.row(k) == rows.row(k) by {}
            assert forall|k: u32| k != id implies #[trigger] self.row(k) == old(self).row(k) by {
                assert(bare.row(k) == old(self).row(k));
                assert(written.row(k) == bare.row(k));
            }
            assert forall|tag: u32| #[trigger]
                self.tagged(tag) == if asset.tags@.contains(TagId(tag)) {
                    old(self).tagged(tag).insert(id)
                } else {
                    old(self).tagged(tag).remove(id)
                } by {
                assert(self.tagged(tag) == filled.tagged(tag));
                assert(bare.tagged(tag) == old(self).tagged(tag).remove(id));
                assert(old(self).tagged(tag).remove(id).insert(id) =~= old(self).tagged(tag).insert(
                    id,
                ));
            }
            assert(self.live() == old(self).live().insert(id));
            assert(self.trash() == old(self).trash().remove(id));
            assert(old(self).inserted(*asset, self));
            assert forall|key: u32| #[trigger]
                filed(self.by_category@, key) == self.in_category(key) by {
                assert(filed(bare.by_category@, key) == filed(
                    old(self).by_category@,
                    key,
                ).remove(id));
                assert(filed(old(self).by_category@, key) == old(self).in_category(key));
                assert(filed(self.by_category@, key) =~= self.in_category(key));
            }
            assert forall|tag: u32| #[trigger] self.tagged(tag).subset_of(self.live()) by {
                assert(old(self).tagged(tag).subset_of(old(self).live()));
            }
            assert(self.live().disjoint(self.trash()));
        }
    }
}

impl FacetIndex {
    /// Writes `asset` as a row in the trash: no query but that of the trash sees it.
    pub fn insert_as_deleted(&mut self, asset: &Asset)
        requires
            old(self).wf(),
        ensures
            final(self).wf(),
            old(self).inserted_as_deleted(*asset, final(self)),
    {
        let id: u32 = asset.id.0;
        self.all.remove(id);
        self.withdraw_facets(id);
        let ghost bare = *self;
        self.deleted.insert(id);
        let ghost trashed = *self;
        self.write_row(asset);
        let ghost written = *self;
        self.tag_counts_cache = None;
        proof {
            assert forall|k: u32| k != id implies #[trigger] self.row(k) == old(self).row(k) by {
                assert(trashed.row(k) == old(self).row(k));
                assert(written.row(k) == trashed.row(k));
            }
            assert(self.row(id) == written.row(id));
            assert forall|tag: u32| #[trigger] self.tagged(tag) == old(self).tagged(tag).remove(
                id,
            ) by {
                assert(self.tagged(tag) == bare.tagged(tag));
            }
            assert(old(self).inserted_as_deleted(*asset, self));
            self.withdrawn_is_wf(old(self), id);
        }
    }

    /// What makes an index valid again after `id` has left the live set.
    proof fn withdrawn_is_wf(&self, before: &FacetIndex, id: u32)
        requires
            before.wf(),
            self.rows_aligned(),
            before.names@.len() <= self.names@.len(),
            self.live() == before.live().remove(id),
            self.trash() == before.trash().insert(id) || self.trash() == before.trash().remove(id),
            self.trash().contains(id) ==> id < self.names@.len(),
            before.other_rows_kept(id, self),
            forall|key: u32| #[trigger]
                filed(self.by_category@, key) == filed(before.by_category@, key).remove(id),
            forall|tag: u32| #[trigger] self.tagged(tag) == before.tagged(tag).remove(id),
            self.tag_counts_cache is None,
        ensures
            self.wf(),
    {
        assert forall|key: u32| #[trigger] filed(self.by_category@, key) == self.in_category(
            key,
        ) by {
            assert(filed(before.by_category@, key) == before.in_category(key));
            assert(filed(self.by_category@, key) =~= self.in_category(key));
        }
        assert forall|tag: u32| #[trigger] self.tagged(tag).subset_of(self.live()) by {
            assert(before.tagged(tag).subset_of(before.live()));
        }
        assert(self.live().disjoint(self.trash()));
    }

    /// Forgets `id`, live or in the trash.
    pub fn remove(&mut self, id: AssetId)
        requires
            old(self).wf(),
        ensures
            final(self).wf(),
            old(self).removed(id.0, final(self)),
    {
        self.deleted.remove(id.0);
        let ghost untrashed = *self;
        if !self.all.remove(id.0) {
            proof {
                assert(self.live() =~= old(self).live());
                assert forall|tag: u32| #[trigger] self.tagged(tag) == old(self).tagged(
                    tag,
                ).remove(id.0) by {
                    assert(old(self).tagged(tag).subset_of(old(self).live()));
                    assert(old(self).tagged(tag).remove(id.0) =~= old(self).tagged(tag));
                }
                assert forall|k: u32| #[trigger] self.row(k) == old(self).row(k) by {}
                assert forall|key: u32| #[trigger]
                    filed(self.by_category@, key) == self.in_category(key) by {
                    assert(filed(old(self).by_category@, key) == old(self).in_category(key));
                    assert(self.in_category(key) =~= old(self).in_category(key));
                }
                assert(self.counts_cached()) by {
                    assert((|tag: u32| self.tagged(tag)) =~= (|tag: u32| old(self).tagged(tag)));
                }
                assert forall|tag: u32| #[trigger] self.tagged(tag).subset_of(self.live()) by {
                    assert(old(self).tagged(tag).subset_of(old(self).live()));
                }
            }
            return;
        }
        self.withdraw_facets(id.0);
        let ghost bare = *self;
        self.tag_counts_cache = None;
        proof {
            assert forall|tag: u32| #[trigger] self.tagged(tag) == old(self).tagged(tag).remove(
                id.0,
            ) by {
                assert(self.tagged(tag) == bare.tagged(tag));
                assert(untrashed.tagged(tag) == old(self).tagged(tag));
            }
            assert forall|k: u32| #[trigger] self.row(k) == old(self).row(k) by {}
            self.withdrawn_is_wf(old(self), id.0);
        }
    }

    /// Moves a live row to the trash, keeping its data. False, and nothing changes,
    /// where the row is not live.
    ///
    /// Tags are not kept: [`Self::unmark_deleted`] brings back the category alone.
    pub fn mark_deleted(&mut self, id: AssetId) -> (r: bool)
        requires
            old(self).wf(),
        ensures
            final(self).wf(),
            r == old(self).live().contains(id.0),
            r ==> old(self).marked(id.0, final(self)),
            !r ==> old(self).same_contents(final(self)),
            !r ==> final(self).live() == old(self).live() && final(self).trash() == old(
                self,
            ).trash(),
            r ==> final(self).trash().contains(id.0) && !final(self).live().contains(id.0),
    {
        if !self.all.contains(id.0) {
            return false;
        }
        self.all.remove(id.0);
        self.withdraw_facets(id.0);
        let ghost bare = *self;
        self.deleted.insert(id.0);
        self.tag_counts_cache = None;
        proof {
            assert forall|tag: u32| #[trigger] self.tagged(tag) == old(self).tagged(tag).remove(
                id.0,
            ) by {
                assert(self.tagged(tag) == bare.tagged(tag));
            }
            assert forall|k: u32| #[trigger] self.row(k) == old(self).row(k) by {}
            self.withdrawn_is_wf(old(self), id.0);
        }
        true
    }

    /// Moves a row back from the trash; it is filed under the category that its row
    /// names. False, and nothing changes, where the row is not in the trash.
    pub fn unmark_deleted(&mut self, id: AssetId) -> (r: bool)
        requires
            old(self).wf(),
        ensures
            final(self).wf(),
            r == old(self).trash().contains(id.0),
            r ==> old(self).unmarked(id.0, final(self)),
            !r ==> old(self).same_contents(final(self)),
            !r ==> final(self).live() == old(self).live() && final(self).trash() == old(
                self,
            ).trash(),
            r ==> final(self).live().contains(id.0) && !final(self).trash().contains(id.0),
    {
        if !self.deleted.contains(id.0) {
            return false;
        }
        self.deleted.remove(id.0);
        self.all.insert(id.0);
        let category: Option<u32> = self.categories[id.0 as usize];
        if let Some(category) = category {
            file(&mut self.by_category, category, id.0);
        }
        self.tag_counts_cache = None;
        proof {
            assert forall|k: u32| #[trigger] self.row(k) == old(self).row(k) by {}
            assert forall|tag: u32| #[trigger] self.tagged(tag) == old(self).tagged(tag) by {}
            assert forall|key: u32| #[trigger]
                filed(self.by_category@, key) == self.in_category(key) by {
                assert(filed(old(self).by_category@, key) == old(self).in_category(key));
                assert(filed(self.by_category@, key) =~= self.in_category(key));
            }
            assert forall|tag: u32| #[trigger] self.tagged(tag).subset_of(self.live()) by {
                assert(old(self).tagged(tag).subset_of(old(self).live()));
            }
        }
        true
    }

    /// Whether the row lies in the trash.
    pub fn is_deleted(&self, id: AssetId) -> (r: bool)
        ensures
            r == self.trash().contains(id.0),
    {
        self.deleted.contains(id.0)
    }

    /// How many rows are live.
    pub fn len(&self) -> (r: u64)
        ensures
            r == self.live().len(),
    {
        self.all.len()
    }

    /// Whether no row is live.
    pub fn is_empty(&self) -> (r: bool)
        ensures
            r == (self.live() == Set::<u32>::empty()),
    {
        self.all.is_empty()
    }

    fn visible_row(&self, id: u32) -> (r: bool)
        ensures
            r == self.visible(id),
    {
        self.all.contains(id) || self.deleted.contains(id)
    }

    /// The asset of a row that is live or in the trash, without its tags.
    pub fn asset(&self, id: u32) -> (r: Option<Asset>)
        requires
            self.wf(),
        ensures
            r is Some <==> self.visible(id),
            r is Some <==> self.live().contains(id) || self.trash().contains(id),
            match r {
                Some(asset) => {
                    &&& asset.id == AssetId(id)
                    &&& row_of(asset) == self.row(id)
                    &&& asset.tags@.len() == 0
                    &&& asset.name@ == self.row(id).name
                    &&& asset.created_at == self.row(id).created_at
                    &&& asset.size_bytes == self.row(id).size_bytes
                    &&& asset.kind == self.row(id).kind
                    &&& match asset.category {
                        Some(category) => self.row(id).category == Some(category.0),
                        None => self.row(id).category is None,
                    }
                },
                None => true,
            },
    {
        if !self.visible_row(id) {
            return None;
        }
        let row: usize = id as usize;
        let category = match self.categories[row] {
            Some(c) => Some(CategoryId(c)),
            None => None,
        };
        let asset = Asset {
            id: AssetId(id),
            name: self.names[row].clone(),
            category,
            tags: Vec::new(),
            created_at: self.created_at[row],
            size_bytes: self.sizes[row],
            kind: self.kinds[row],
        };
        Some(asset)
    }

    /// The file name of a row that is live or in the trash.
    pub fn name(&self, id: u32) -> (r: Option<&str>)
        requires
            self.wf(),
        ensures
            r is Some <==> self.visible(id),
            r is Some <==> self.live().contains(id) || self.trash().contains(id),
            match r {
                Some(name) => name@ == self.row(id).name,
                None => true,
            },
    {
        if !self.visible_row(id) {
            return None;
        }
        Some(self.names[id as usize].as_str())
    }

    /// The kind of a row that is live or in the trash; any other row is `Other`.
    pub fn kind(&self, id: u32) -> (r: AssetKind)
        requires
            self.wf(),
        ensures
            r == if self.visible(id) {
                self.row(id).kind
            } else {
                AssetKind::Other
            },
            self.live().contains(id) || self.trash().contains(id) ==> r == self.row(id).kind,
            !self.live().contains(id) && !self.trash().contains(id) ==> r == AssetKind::Other,
    {
        if !self.visible_row(id) {
            return AssetKind::Other;
        }
        self.kinds[id as usize]
    }

    /// The live rows.
    pub fn all_ids(&self) -> (r: &RoaringBitmap)
        ensures
            ids(*r) == self.live(),
    {
        &self.all
    }
}

impl FacetIndex {
    /// The live rows whose name holds `needle`, whatever the case and without regard to
    /// white space around the needle. A blank needle finds nothing.
    pub fn search_names(&self, needle: &str) -> (r: RoaringBitmap)
        requires
            self.wf(),
        ensures
            forall|id: u32| #[trigger] ids(r).contains(id) <==> self.name_matches(id, needle@),
            trimmed(needle@).len() > 0 ==> forall|id: u32| #[trigger]
                ids(r).contains(id) <==> self.live().contains(id) && occurs_in(
                    folded(trimmed(needle@)),
                    folded(self.row(id).name),
                ),
            trimmed(needle@).len() == 0 ==> ids(r) == Set::<u32>::empty(),
            forall|id: u32, i: int, j: int|
                self.live().contains(id) && 0 <= i < j <= self.row(id).name.len() && needle@
                    == #[trigger] self.row(id).name.subrange(i, j) && (exists|k: int|
                    0 <= k < needle@.len() && !whitespace(#[trigger] needle@[k])) ==> ids(
                    r,
                ).contains(id),
    {
        proof {
            trimming_cuts_white_space_off(needle@);
            assert forall|id: u32, i: int, j: int|
                self.live().contains(id) && 0 <= i < j <= self.row(id).name.len() && needle@
                    == #[trigger] self.row(id).name.subrange(i, j) implies occurs_in(
                folded(trimmed(needle@)),
                folded(self.row(id).name),
            ) by {
                needles_are_found_where_they_come_from(self.row(id).name, i, j);
            }
        }
        let needle_chars = fold_lower(needle);
        let mut hits = RoaringBitmap::new();
        if needle_chars.len() == 0 {
            assert(ids(hits) =~= Set::empty());
            return hits;
        }
        let candidates = members(&self.all);
        let mut ring: Vec<char> = Vec::new();
        let mut i: usize = 0;
        while i < candidates.len()
            invariant
                i <= candidates@.len(),
                self.wf(),
                ascending(candidates@, self.live()),
                needle_chars@ == folded(trimmed(needle@)),
                needle_chars@.len() > 0,
                forall|id: u32| #[trigger]
                    ids(hits).contains(id) <==> candidates@.take(i as int).contains(id)
                        && self.name_matches(id, needle@),
            decreases candidates@.len() - i,
        {
            let id: u32 = candidates[i];
            let ghost was = ids(hits);
            proof {
                assert(candidates@.contains(id));
                assert(self.live().contains(id));
            }
            let name = self.names[id as usize].as_str();
            let found = contains_case_fold(name, needle_chars.as_slice(), &mut ring);
            if found {
                hits.insert(id);
            }
            proof {
                let seen = candidates@.take(i as int);
                let next = candidates@.take(i + 1);
                assert(next =~= seen.push(id));
                assert forall|k: u32| #[trigger] next.contains(k) <==> seen.contains(k) || k
                    == id by {
                    assert(next[i as int] == id);
                    if seen.contains(k) {
                        let p = choose|p: int| 0 <= p < seen.len() && seen[p] == k;
                        assert(next[p] == k);
                    }
                }
                assert(found == self.name_matches(id, needle@));
            }
            i = i + 1;
        }
        proof {
            assert(candidates@.take(candidates@.len() as int) =~= candidates@);
        }
        hits
    }

    /// The ids that `filter` selects.
    pub fn evaluate(&self, filter: &Filter) -> (r: RoaringBitmap)
        requires
            self.wf(),
        ensures
            ids(r) == self.selected(*filter),
        decreases filter,
    {
        broadcast use vstd::std_specs::hash::group_hash_axioms;

        match filter {
            Filter::All => {
                let r = copy_of(&self.all);
                assert(ids(r) =~= self.selected(*filter));
                r
            },
            Filter::InCategory(category) => {
                proof {
                    assert(filed(self.by_category@, category.0) == self.in_category(category.0));
                    assert(self.in_category(category.0) =~= self.selected(*filter));
                }
                match self.by_category.get(&category.0) {
                    Some(bitmap) => copy_of(bitmap),
                    None => RoaringBitmap::new(),
                }
            },
            Filter::HasTag(tag) => {
                assert(self.tagged(tag.0) =~= self.selected(*filter));
                match self.by_tag.get(&tag.0) {
                    Some(bitmap) => copy_of(bitmap),
                    None => RoaringBitmap::new(),
                }
            },
            Filter::NameContains(needle) => {
                let r = self.search_names(needle.as_str());
                assert(ids(r) =~= self.selected(*filter));
                r
            },
            Filter::NameIn(list) => {
                let mut given = RoaringBitmap::new();
                let mut i: usize = 0;
                while i < list.len()
                    invariant
                        i <= list@.len(),
                        forall|id: u32| #[trigger]
                            ids(given).contains(id) <==> list@.take(i as int).contains(id),
                    decreases list@.len() - i,
                {
                    proof {
                        let seen = list@.take(i as int);
                        let next = list@.take(i + 1);
                        assert(next =~= seen.push(list@[i as int]));
                        assert forall|k: u32| #[trigger] next.contains(k) <==> seen.contains(k) || k
                            == list@[i as int] by {
                            assert(next[i as int] == list@[i as int]);
                            if seen.contains(k) {
                                let p = choose|p: int| 0 <= p < seen.len() && seen[p] == k;
                                assert(next[p] == k);
                            }
                        }
                    }
                    given.insert(list[i]);
                    i = i + 1;
                }
                let r = intersection(&self.all, &given);
                proof {
                    assert(list@.take(list@.len() as int) =~= list@);
                    assert(ids(r) =~= self.selected(*filter));
                }
                r
            },
            Filter::Trash => {
                let r = copy_of(&self.deleted);
                assert(ids(r) =~= self.selected(*filter));
                r
            },
            Filter::Not(inner) => {
                let excluded = self.evaluate(inner);
                let r = difference(&self.all, &excluded);
                assert(ids(r) =~= self.selected(*filter));
                r
            },
            Filter::AllOf(filters) => {
                if filters.len() == 0 {
                    let r = copy_of(&self.all);
                    assert(ids(r) =~= self.selected(*filter));
                    return r;
                }
                assert(decreases_to!(filter => filter->AllOf_0@[0]));
                let mut acc = self.evaluate(&filters[0]);
                let mut i: usize = 1;
                while i < filters.len()
                    invariant
                        self.wf(),
                        *filter == Filter::AllOf(*filters),
                        1 <= i <= filters@.len(),
                        forall|id: u32| #[trigger]
                            ids(acc).contains(id) <==> (forall|k: int|
                                0 <= k < i ==> self.accepts(#[trigger] filters@[k], id)),
                    decreases filters@.len() - i,
                {
                    assert(decreases_to!(filter => filter->AllOf_0@[i as int]));
                    let next = self.evaluate(&filters[i]);
                    acc = intersection(&acc, &next);
                    i = i + 1;
                }
                assert(ids(acc) =~= self.selected(*filter));
                acc
            },
            Filter::AnyOf(filters) => {
                let mut acc = RoaringBitmap::new();
                let mut i: usize = 0;
                while i < filters.len()
                    invariant
                        self.wf(),
                        *filter == Filter::AnyOf(*filters),
                        i <= filters@.len(),
                        forall|id: u32| #[trigger]
                            ids(acc).contains(id) <==> (exists|k: int|
                                0 <= k < i && self.accepts(#[trigger] filters@[k], id)),
                    decreases filters@.len() - i,
                {
                    assert(decreases_to!(filter => filter->AnyOf_0@[i as int]));
                    let next = self.evaluate(&filters[i]);
                    let ghost was = ids(acc);
                    unite(&mut acc, &next);
                    proof {
                        assert forall|id: u32| #[trigger]
                            ids(acc).contains(id) <==> (exists|k: int|
                                0 <= k < i + 1 && self.accepts(#[trigger] filters@[k], id)) by {
                            assert(was.contains(id) <==> (exists|k: int|
                                0 <= k < i && self.accepts(#[trigger] filters@[k], id)));
                            assert(ids(next).contains(id)
                                <==> self.accepts(filters@[i as int], id));
                        }
                    }
                    i = i + 1;
                }
                assert(ids(acc) =~= self.selected(*filter));
                acc
            },
        }
    }
}

impl Default for FacetIndex {
    fn default() -> (r: FacetIndex)
        ensures
            r.wf(),
            r.live() == Set::<u32>::empty(),
            r.trash() == Set::<u32>::empty(),
            forall|id: u32| #[trigger] r.row(id) == blank_row(),
            forall|tag: u32| #[trigger] r.tagged(tag) == Set::<u32>::empty(),
    {
        FacetIndex::new()
    }
}

struct IdRanks<'a> {
    index: &'a FacetIndex,
    keys: &'a Vec<SortSpec>,
    ids: &'a Vec<u32>,
}

impl<'a> IdRanks<'a> {
    #[verifier::type_invariant]
    closed spec fn valid(&self) -> bool {
        self.index.wf()
    }
}

impl<'a> Ranked for IdRanks<'a> {
    closed spec fn count(&self) -> nat {
        self.ids@.len()
    }

    closed spec fn le(&self, i: int, j: int) -> bool {
        may_precede(
            self.keys@,
            self.index.traits(self.ids@[i]),
            self.index.traits(self.ids@[j]),
        )
    }

    proof fn total(&self, i: int, j: int) {
        sort_order_is_total(
            self.keys@,
            self.index.traits(self.ids@[i]),
            self.index.traits(self.ids@[j]),
        );
    }

    proof fn transitive(&self, i: int, j: int, k: int) {
        sort_order_is_transitive(
            self.keys@,
            self.index.traits(self.ids@[i]),
            self.index.traits(self.ids@[j]),
            self.index.traits(self.ids@[k]),
        );
    }

    fn leq(&self, i: usize, j: usize) -> (r: bool) {
        proof {
            use_type_invariant(self);
        }
        let a = self.index.sortable(self.ids[i]);
        let b = self.index.sortable(self.ids[j]);
        rank_by(self.keys, &a, &b) != Rank::After
    }
}

impl FacetIndex {
    /// What sorting sees of a row, wherever the row stands.
    fn sortable(&self, id: u32) -> (r: Sortable<'_>)
        requires
            self.wf(),
        ensures
            r.traits() == self.traits(id),
    {
        let row: usize = id as usize;
        let visible = self.visible_row(id);
        let name = if visible {
            self.names[row].as_str()
        } else {
            ""
        };
        proof {
            reveal_strlit("");
            assert(""@ =~= Seq::<char>::empty());
        }
        let known = row < self.names.len();
        let r = Sortable {
            name,
            created_at: if known {
                self.created_at[row]
            } else {
                0
            },
            size_bytes: if known {
                self.sizes[row]
            } else {
                None
            },
            kind: if visible {
                self.kinds[row]
            } else {
                AssetKind::Other
            },
        };
        r
    }

    /// The members of `base` in the order of `sorter`; those that no key tells apart
    /// ascend.
    pub fn sorted_ids(&self, sorter: &Sorter, base: &RoaringBitmap) -> (r: Vec<u32>)
        requires
            self.wf(),
        ensures
            exists|list: Seq<u32>| #[trigger]
                ascending(list, ids(*base)) && stable_sort(self.id_order(*sorter), list, r@),
    {
        let list = members(base);
        let n: usize = list.len();
        let ranks = IdRanks { index: self, keys: &sorter.keys, ids: &list };
        let positions = sorted_positions(&ranks, n);
        let mut out: Vec<u32> = Vec::with_capacity(n);
        let mut i: usize = 0;
        while i < n
            invariant
                n == list@.len(),
                i <= n,
                in_order(&ranks, positions@, 0, n as int),
                out@.len() == i,
                forall|a: int| 0 <= a < i ==> #[trigger] out@[a] == list@[positions@[a] as int],
            decreases n - i,
        {
            out.push(list[positions[i]]);
            i = i + 1;
        }
        proof {
            let le = self.id_order(*sorter);
            let perm: Seq<int> = positions@.map_values(|p: usize| p as int);
            assert forall|k: int| 0 <= k < n implies #[trigger] perm.contains(k) by {
                assert(positions@.contains(k as usize));
                let a = choose|a: int| 0 <= a < positions@.len() && positions@[a] == k as usize;
                assert(perm[a] == k);
            }
            assert(is_permutation(perm, n as nat));
            assert forall|a: int, b: int| 0 <= a < b < out@.len() implies {
                &&& le(#[trigger] out@[a], #[trigger] out@[b])
                &&& le(out@[b], out@[a]) ==> perm[a] < perm[b]
            } by {
                assert(before(&ranks, positions@[a] as int, positions@[b] as int));
            }
            assert(stably_reads(le, list@, perm, out@));
            assert(ascending(list@, ids(*base)));
        }
        out
    }

    /// How many rows carry each tag that is in use.
    ///
    /// The counts are kept until the index changes.
    pub fn tag_counts(&mut self) -> (r: HashMap<u32, u64>)
        requires
            old(self).wf(),
        ensures
            final(self).wf(),
            old(self).same_contents(final(self)),
            counts_members(r@, |tag: u32| old(self).tagged(tag)),
            forall|tag: u32| #[trigger]
                r@.contains_key(tag) <==> exists|id: u32| old(self).tagged(tag).contains(id),
            forall|tag: u32| #[trigger]
                r@.contains_key(tag) ==> r@[tag] == old(self).tagged(tag).len(),
    {
        broadcast use vstd::std_specs::hash::group_hash_axioms;

        let ghost sets = |tag: u32| old(self).tagged(tag);
        if let Some(counts) = &self.tag_counts_cache {
            let copy = counts.clone();
            proof {
                filled_sets_have_members(copy@, sets);
            }
            return copy;
        }
        let keys = keys_of(&self.by_tag);
        let mut counts: HashMap<u32, u64> = HashMap::new();
        let mut i: usize = 0;
        while i < keys.len()
            invariant
                i <= keys@.len(),
                *self == *old(self),
                sets == (|tag: u32| old(self).tagged(tag)),
                forall|key: u32| #[trigger]
                    keys@.contains(key) <==> self.by_tag@.contains_key(key),
                forall|key: u32| #[trigger]
                    counts@.contains_key(key) <==> keys@.take(i as int).contains(key) && sets(key)
                        != Set::<u32>::empty(),
                forall|key: u32| #[trigger]
                    counts@.contains_key(key) ==> counts@[key] == sets(key).len(),
            decreases keys@.len() - i,
        {
            let key: u32 = keys[i];
            let ghost was = counts@;
            proof {
                assert(keys@.contains(key));
                let seen = keys@.take(i as int);
                let next = keys@.take(i + 1);
                assert(next =~= seen.push(key));
                assert forall|k: u32| #[trigger] next.contains(k) <==> seen.contains(k) || k
                    == key by {
                    assert(next[i as int] == key);
                    if seen.contains(k) {
                        let p = choose|p: int| 0 <= p < seen.len() && seen[p] == k;
                        assert(next[p] == k);
                    }
                }
            }
            if let Some(bitmap) = self.by_tag.get(&key) {
                assert(sets(key) == ids(*bitmap));
                if !bitmap.is_empty() {
                    counts.insert(key, bitmap.len());
                }
            }
            i = i + 1;
        }
        proof {
            assert(keys@.take(keys@.len() as int) =~= keys@);
            assert forall|key: u32| #[trigger]
                counts@.contains_key(key) <==> sets(key) != Set::<u32>::empty() by {
                if sets(key) != Set::<u32>::empty() {
                    assert(self.by_tag@.contains_key(key));
                    assert(keys@.contains(key));
                }
            }
        }
        let copy = counts.clone();
        self.tag_counts_cache = Some(copy);
        proof {
            assert forall|k: u32| #[trigger] self.row(k) == old(self).row(k) by {}
            assert forall|tag: u32| #[trigger] self.tagged(tag) == old(self).tagged(tag) by {}
            assert((|tag: u32| self.tagged(tag)) =~= sets);
            assert forall|key: u32| #[trigger]
                filed(self.by_category@, key) == self.in_category(key) by {
                assert(filed(old(self).by_category@, key) == old(self).in_category(key));
                assert(self.in_category(key) =~= old(self).in_category(key));
            }
            assert forall|tag: u32| #[trigger] self.tagged(tag).subset_of(self.live()) by {
                assert(old(self).tagged(tag).subset_of(old(self).live()));
            }
            filled_sets_have_members(counts@, sets);
        }
        counts
    }
}

/// A filter in which the trash is not asked for.
pub open spec fn leaves_trash_alone(filter: Filter) -> bool
    decreases filter,
{
    match filter {
        Filter::Trash => false,
        Filter::AllOf(filters) => forall|i: int|
            0 <= i < filters@.len() ==> leaves_trash_alone(#[trigger] filters@[i]),
        Filter::AnyOf(filters) => forall|i: int|
            0 <= i < filters@.len() ==> leaves_trash_alone(#[trigger] filters@[i]),
        _ => true,
    }
}

/// No row is live and in the trash at once.
pub proof fn live_and_trash_are_disjoint(index: &FacetIndex, id: u32)
    requires
        index.wf(),
    ensures
        !(index.live().contains(id) && index.trash().contains(id)),
{
}

/// Only a live row carries a tag.
pub proof fn tags_are_on_live_rows(index: &FacetIndex, tag: u32, id: u32)
    requires
        index.wf(),
        index.tagged(tag).contains(id),
    ensures
        index.live().contains(id),
{
    assert(index.tagged(tag).subset_of(index.live()));
}

/// A query sees the trash only where it asks for it: any other filter selects live
/// rows.
pub proof fn queries_see_live_rows_only(index: &FacetIndex, filter: Filter, id: u32)
    requires
        index.wf(),
        leaves_trash_alone(filter),
        index.accepts(filter, id),
    ensures
        index.live().contains(id),
    decreases filter,
{
    match filter {
        Filter::HasTag(tag) => tags_are_on_live_rows(index, tag.0, id),
        Filter::AllOf(filters) => {
            if filters@.len() > 0 {
                assert(leaves_trash_alone(filters@[0]));
                queries_see_live_rows_only(index, filters@[0], id);
            }
        },
        Filter::AnyOf(filters) => {
            let i = choose|i: int|
                0 <= i < filters@.len() && index.accepts(#[trigger] filters@[i], id);
            assert(leaves_trash_alone(filters@[i]));
            queries_see_live_rows_only(index, filters@[i], id);
        },
        _ => {},
    }
}

/// What is not in the trash is what is live.
pub proof fn outside_the_trash_is_live(index: &FacetIndex, inner: Box<Filter>)
    requires
        index.wf(),
        *inner == Filter::Trash,
    ensures
        index.selected(Filter::Not(inner)) == index.live(),
{
    reveal_with_fuel(FacetIndex::accepts, 2);
    assert(index.selected(Filter::Not(inner)) =~= index.live());
}

/// A filter and its negation split the live rows between them.
pub proof fn negation_splits_the_live_rows(index: &FacetIndex, filter: Box<Filter>, id: u32)
    requires
        index.wf(),
        leaves_trash_alone(*filter),
    ensures
        index.live().contains(id) <==> (index.accepts(*filter, id) || index.accepts(
            Filter::Not(filter),
            id,
        )),
        !(index.accepts(*filter, id) && index.accepts(Filter::Not(filter), id)),
{
    if index.accepts(*filter, id) {
        queries_see_live_rows_only(index, *filter, id);
    }
}

/// Taking a row back out of the trash restores the live rows, the trash and every
/// category.
pub proof fn unmarking_undoes_marking(
    start: &FacetIndex,
    marked: &FacetIndex,
    restored: &FacetIndex,
    id: u32,
)
    requires
        start.wf(),
        start.live().contains(id),
        start.marked(id, marked),
        marked.unmarked(id, restored),
    ensures
        restored.live() == start.live(),
        restored.trash() == start.trash(),
        forall|k: u32| #[trigger] restored.row(k) == start.row(k),
        forall|category: u32| #[trigger]
            restored.in_category(category) == start.in_category(category),
{
    assert(restored.live() =~= start.live());
    assert(restored.trash() =~= start.trash());
    assert forall|k: u32| #[trigger] restored.row(k) == start.row(k) by {
        assert(marked.row(k) == start.row(k));
    }
    assert forall|category: u32| #[trigger]
        restored.in_category(category) == start.in_category(category) by {
        assert(restored.in_category(category) =~= start.in_category(category));
    }
}

/// Writing the asset of a row in the trash makes it live again.
pub proof fn inserting_revives(start: &FacetIndex, after: &FacetIndex, asset: Asset)
    requires
        start.wf(),
        start.trash().contains(asset.id.0),
        start.inserted(asset, after),
    ensures
        after.live().contains(asset.id.0),
        !after.trash().contains(asset.id.0),
        asset.category matches Some(category) ==> after.in_category(category.0).contains(
            asset.id.0,
        ),
{
}

/// Sorting ids neither loses nor adds any.
pub proof fn sorted_ids_are_the_members(
    index: &FacetIndex,
    sorter: Sorter,
    base: Set<u32>,
    list: Seq<u32>,
    sorted: Seq<u32>,
    id: u32,
)
    requires
        ascending(list, base),
        stable_sort(index.id_order(sorter), list, sorted),
    ensures
        sorted.contains(id) <==> base.contains(id),
{
    let perm = choose|perm: Seq<int>| stably_reads(index.id_order(sorter), list, perm, sorted);
    if sorted.contains(id) {
        let a = choose|a: int| 0 <= a < sorted.len() && sorted[a] == id;
        assert(list[perm[a]] == id);
        assert(list.contains(id));
    }
    if base.contains(id) {
        assert(list.contains(id));
        let k = choose|k: int| 0 <= k < list.len() && list[k] == id;
        assert(perm.contains(k));
        let a = choose|a: int| 0 <= a < perm.len() && perm[a] == k;
        assert(sorted[a] == id);
    }
}

/// Sorted ids of rows that are live or in the trash stand in the order of the first key in
/// which their rows differ: earlier or later dates first, smaller or larger files first with
/// unknown sizes last, pictures, videos, texts and the rest in this order or the other way
/// round, and names by their UTF-8 bytes.
pub proof fn sorted_ids_follow_their_keys(
    index: &FacetIndex,
    sorter: Sorter,
    list: Seq<u32>,
    sorted: Seq<u32>,
    i: int,
    j: int,
    m: int,
)
    requires
        index.wf(),
        stable_sort(index.id_order(sorter), list, sorted),
        0 <= i < j < sorted.len(),
        index.live().contains(sorted[i]) || index.trash().contains(sorted[i]),
        index.live().contains(sorted[j]) || index.trash().contains(sorted[j]),
        0 <= m < sorter.keys@.len(),
        forall|k: int|
            0 <= k < m ==> match (#[trigger] sorter.keys@[k]).field {
                SortField::CreatedAt => index.row(sorted[i]).created_at == index.row(sorted[j]).created_at,
                SortField::Name => index.row(sorted[i]).name == index.row(sorted[j]).name,
                SortField::Size => index.row(sorted[i]).size_bytes == index.row(sorted[j]).size_bytes,
                SortField::Kind => index.row(sorted[i]).kind == index.row(sorted[j]).kind,
            },
    ensures
        match (sorter.keys@[m].field, sorter.keys@[m].direction) {
            (SortField::CreatedAt, SortDirection::Asc) => index.row(sorted[i]).created_at <= index.row(sorted[j]).created_at,
            (SortField::CreatedAt, SortDirection::Desc) => index.row(sorted[i]).created_at >= index.row(sorted[j]).created_at,
            (SortField::Size, SortDirection::Asc) => match (index.row(sorted[i]).size_bytes, index.row(sorted[j]).size_bytes) {
                (Some(x), Some(y)) => x <= y,
                (None, Some(_)) => false,
                (_, None) => true,
            },
            (SortField::Size, SortDirection::Desc) => match (index.row(sorted[i]).size_bytes, index.row(sorted[j]).size_bytes) {
                (Some(x), Some(y)) => x >= y,
                (None, Some(_)) => false,
                (_, None) => true,
            },
            (SortField::Kind, SortDirection::Asc) => {
                &&& index.row(sorted[i]).kind == AssetKind::Video
                    ==> index.row(sorted[j]).kind != AssetKind::Image
                &&& index.row(sorted[i]).kind == AssetKind::Text
                    ==> index.row(sorted[j]).kind == AssetKind::Text || index.row(sorted[j]).kind
                    == AssetKind::Other
                &&& index.row(sorted[i]).kind == AssetKind::Other
                    ==> index.row(sorted[j]).kind == AssetKind::Other
            },
            (SortField::Kind, SortDirection::Desc) => {
                &&& index.row(sorted[j]).kind == AssetKind::Video
                    ==> index.row(sorted[i]).kind != AssetKind::Image
                &&& index.row(sorted[j]).kind == AssetKind::Text
                    ==> index.row(sorted[i]).kind == AssetKind::Text || index.row(sorted[i]).kind
                    == AssetKind::Other
                &&& index.row(sorted[j]).kind == AssetKind::Other
                    ==> index.row(sorted[i]).kind == AssetKind::Other
            },
            (SortField::Name, SortDirection::Asc) => {
                forall|p: int|
                    0 <= p <= encode_utf8(index.row(sorted[i]).name).len()
                        && p <= encode_utf8(index.row(sorted[j]).name).len()
                        && #[trigger] encode_utf8(index.row(sorted[i]).name).take(p) == encode_utf8(index.row(sorted[j]).name).take(p)
                        ==> !(p == encode_utf8(index.row(sorted[j]).name).len()
                            && p < encode_utf8(index.row(sorted[i]).name).len())
                            && !(p < encode_utf8(index.row(sorted[i]).name).len()
                        && p < encode_utf8(index.row(sorted[j]).name).len()
                            && encode_utf8(index.row(sorted[j]).name)[p] < encode_utf8(index.row(sorted[i]).name)[p])
            },
            (SortField::Name, SortDirection::Desc) => {
                forall|p: int|
                    0 <= p <= encode_utf8(index.row(sorted[j]).name).len()
                        && p <= encode_utf8(index.row(sorted[i]).name).len()
                        && #[trigger] encode_utf8(index.row(sorted[j]).name).take(p) == encode_utf8(index.row(sorted[i]).name).take(p)
                        ==> !(p == encode_utf8(index.row(sorted[i]).name).len()
                            && p < encode_utf8(index.row(sorted[j]).name).len())
                            && !(p < encode_utf8(index.row(sorted[j]).name).len()
                        && p < encode_utf8(index.row(sorted[i]).name).len()
                            && encode_utf8(index.row(sorted[i]).name)[p] < encode_utf8(index.row(sorted[j]).name)[p])
            },
        },
{
    let perm = choose|perm: Seq<int>| stably_reads(index.id_order(sorter), list, perm, sorted);
    assert((index.id_order(sorter))(sorted[i], sorted[j]));
    first_key_that_differs_decides(
        sorter.keys@,
        m,
        index.traits(sorted[i]),
        index.traits(sorted[j]),
    );
}

/// Ids whose rows agree in every key ascend.
pub proof fn sorted_ids_that_agree_ascend(
    index: &FacetIndex,
    sorter: Sorter,
    base: Set<u32>,
    list: Seq<u32>,
    sorted: Seq<u32>,
    i: int,
    j: int,
)
    requires
        index.wf(),
        ascending(list, base),
        stable_sort(index.id_order(sorter), list, sorted),
        0 <= i < j < sorted.len(),
        index.live().contains(sorted[i]) || index.trash().contains(sorted[i]),
        index.live().contains(sorted[j]) || index.trash().contains(sorted[j]),
        forall|k: int|
            0 <= k < sorter.keys@.len() ==> match (#[trigger] sorter.keys@[k]).field {
                SortField::CreatedAt => index.row(sorted[i]).created_at == index.row(sorted[j]).created_at,
                SortField::Name => index.row(sorted[i]).name == index.row(sorted[j]).name,
                SortField::Size => index.row(sorted[i]).size_bytes == index.row(sorted[j]).size_bytes,
                SortField::Kind => index.row(sorted[i]).kind == index.row(sorted[j]).kind,
            },
    ensures
        sorted[i] < sorted[j],
{
    let perm = choose|perm: Seq<int>| stably_reads(index.id_order(sorter), list, perm, sorted);
    alike_in_every_key(sorter.keys@, index.traits(sorted[j]), index.traits(sorted[i]));
    assert((index.id_order(sorter))(sorted[j], sorted[i]));
    assert((index.id_order(sorter))(sorted[i], sorted[j]));
    assert(perm[i] < perm[j]);
    assert(list[perm[i]] < list[perm[j]]);
}

/// What each filter selects. The bare filter selects the live rows; one by category those
/// whose row names it; one by tag those that carry it; one by name those whose folded name
/// holds the folded text, which must not be blank, however short it is; one by ids those of
/// them that are live; that of the trash what lies there. A negation selects the live rows
/// that the inner filter does not; a conjunction what all of its filters do, and all live
/// rows where it has none; a disjunction what any of its filters does.
pub proof fn filters_select_what_they_name(
    index: &FacetIndex,
    id: u32,
    category: CategoryId,
    tag: TagId,
    needle: String,
    list: Vec<u32>,
    inner: Box<Filter>,
    filters: Vec<Filter>,
)
    ensures
        index.selected(Filter::All).contains(id) <==> index.live().contains(id),
        index.selected(Filter::InCategory(category)).contains(id) <==> index.live().contains(id)
            && index.row(id).category == Some(category.0),
        index.selected(Filter::HasTag(tag)).contains(id) <==> index.tagged(tag.0).contains(id),
        folded(trimmed(needle@)).len() > 0 ==> (index.selected(
            Filter::NameContains(needle),
        ).contains(id) <==> index.live().contains(id) && occurs_in(
            folded(trimmed(needle@)),
            folded(index.row(id).name),
        )),
        trimmed(needle@).len() == 0 ==> !index.selected(Filter::NameContains(needle)).contains(id),
        index.selected(Filter::NameIn(list)).contains(id) <==> index.live().contains(id)
            && list@.contains(id),
        index.selected(Filter::Trash).contains(id) <==> index.trash().contains(id),
        index.selected(Filter::Not(inner)).contains(id) <==> index.live().contains(id)
            && !index.selected(*inner).contains(id),
        filters@.len() == 0 ==> (index.selected(Filter::AllOf(filters)).contains(id)
            <==> index.live().contains(id)),
        filters@.len() > 0 ==> (index.selected(Filter::AllOf(filters)).contains(id) <==> forall|
            i: int,
        |
            0 <= i < filters@.len() ==> index.selected(#[trigger] filters@[i]).contains(id)),
        index.selected(Filter::AnyOf(filters)).contains(id) <==> exists|i: int|
            0 <= i < filters@.len() && index.selected(#[trigger] filters@[i]).contains(id),
{
    if index.accepts(Filter::AllOf(filters), id) {
        assert forall|i: int| 0 <= i < filters@.len() implies index.selected(
            #[trigger] filters@[i],
        ).contains(id) by {
            assert(index.accepts(filters@[i], id));
        }
    }
    if filters@.len() > 0 && forall|i: int|
        0 <= i < filters@.len() ==> index.selected(#[trigger] filters@[i]).contains(id) {
        assert forall|i: int| 0 <= i < filters@.len() implies index.accepts(
            #[trigger] filters@[i],
            id,
        ) by {
            assert(index.selected(filters@[i]).contains(id));
        }
    }
    if index.accepts(Filter::AnyOf(filters), id) {
        let i = choose|i: int| 0 <= i < filters@.len() && index.accepts(#[trigger] filters@[i], id);
        assert(index.accepts(filters@[i], id));
        assert(index.selected(filters@[i]).contains(id));
    }
    if exists|i: int|
        0 <= i < filters@.len() && index.selected(#[trigger] filters@[i]).contains(id) {
        let i = choose|i: int|
            0 <= i < filters@.len() && index.selected(#[trigger] filters@[i]).contains(id);
        assert(index.accepts(filters@[i], id));
        assert(index.accepts(Filter::AnyOf(filters), id));
    }
}

/// A live row is found by every piece of its name that folds to something, of one character
/// too.
pub proof fn pieces_of_a_name_find_its_row(
    index: &FacetIndex,
    id: u32,
    i: int,
    j: int,
    needle: String,
)
    requires
        index.live().contains(id),
        0 <= i <= j <= index.row(id).name.len(),
        needle@ == index.row(id).name.subrange(i, j),
        folded(trimmed(needle@)).len() >= 1,
    ensures
        index.selected(Filter::NameContains(needle)).contains(id),
{
    needles_are_found_where_they_come_from(index.row(id).name, i, j);
}

/// Writing an asset makes its row live with just its data, under its category and its tags,
/// and touches no other row.
pub proof fn inserting_writes_one_live_row(start: &FacetIndex, after: &FacetIndex, asset: Asset, id: u32)
    requires
        start.inserted(asset, after),
        id == asset.id.0,
    ensures
        after.live().contains(id),
        !after.trash().contains(id),
        after.row(id).name == asset.name@,
        after.row(id).created_at == asset.created_at,
        after.row(id).size_bytes == asset.size_bytes,
        after.row(id).kind == asset.kind,
        match asset.category {
            Some(category) => after.row(id).category == Some(category.0),
            None => after.row(id).category is None,
        },
        forall|tag: u32| #[trigger]
            after.tagged(tag).contains(id) <==> exists|i: int|
                0 <= i < asset.tags@.len() && (#[trigger] asset.tags@[i]).0 == tag,
        forall|k: u32|
            k != id ==> (after.live().contains(k) <==> start.live().contains(k)) && (
            after.trash().contains(k) <==> start.trash().contains(k)) && #[trigger] after.row(k)
                == start.row(k),
        forall|k: u32, tag: u32|
            k != id ==> (#[trigger] after.tagged(tag).contains(k) <==> start.tagged(tag).contains(
                k,
            )),
{
    assert forall|tag: u32| #[trigger]
        after.tagged(tag).contains(id) <==> exists|i: int|
            0 <= i < asset.tags@.len() && (#[trigger] asset.tags@[i]).0 == tag by {
        if asset.tags@.contains(TagId(tag)) {
            let i = asset.tags@.index_of(TagId(tag));
            assert(asset.tags@[i].0 == tag);
        }
        if exists|i: int| 0 <= i < asset.tags@.len() && (#[trigger] asset.tags@[i]).0 == tag {
            let i = choose|i: int| 0 <= i < asset.tags@.len()
                && (#[trigger] asset.tags@[i]).0 == tag;
            assert(asset.tags@[i] == TagId(tag));
        }
    }
}

/// Writing an asset as deleted puts its row into the trash with just its data, without tags,
/// and touches no other row.
pub proof fn inserting_as_deleted_writes_one_row(
    start: &FacetIndex,
    after: &FacetIndex,
    asset: Asset,
    id: u32,
)
    requires
        start.inserted_as_deleted(asset, after),
        id == asset.id.0,
    ensures
        !after.live().contains(id),
        after.trash().contains(id),
        after.row(id).name == asset.name@,
        after.row(id).created_at == asset.created_at,
        after.row(id).size_bytes == asset.size_bytes,
        after.row(id).kind == asset.kind,
        match asset.category {
            Some(category) => after.row(id).category == Some(category.0),
            None => after.row(id).category is None,
        },
        forall|tag: u32| !(#[trigger] after.tagged(tag)).contains(id),
        forall|k: u32|
            k != id ==> (after.live().contains(k) <==> start.live().contains(k)) && (
            after.trash().contains(k) <==> start.trash().contains(k)) && #[trigger] after.row(k)
                == start.row(k),
        forall|k: u32, tag: u32|
            k != id ==> (#[trigger] after.tagged(tag).contains(k) <==> start.tagged(tag).contains(
                k,
            )),
{
}

/// Marking a row moves it to the trash with its data, unmarking moves it back, removing takes
/// it out of both; no other row is touched.
pub proof fn moving_a_row_touches_no_other(start: &FacetIndex, after: &FacetIndex, id: u32)
    requires
        start.marked(id, after) || start.unmarked(id, after) || start.removed(id, after),
    ensures
        start.marked(id, after) ==> !after.live().contains(id) && after.trash().contains(id)
            && after.row(id) == start.row(id) && forall|tag: u32|
            !(#[trigger] after.tagged(tag)).contains(id),
        start.unmarked(id, after) ==> after.live().contains(id) && !after.trash().contains(id)
            && after.row(id) == start.row(id),
        start.removed(id, after) ==> !after.live().contains(id) && !after.trash().contains(id)
            && forall|tag: u32| !(#[trigger] after.tagged(tag)).contains(id),
        forall|k: u32|
            k != id ==> (after.live().contains(k) <==> start.live().contains(k)) && (
            after.trash().contains(k) <==> start.trash().contains(k)) && #[trigger] after.row(k)
                == start.row(k),
        forall|k: u32, tag: u32|
            k != id ==> (#[trigger] after.tagged(tag).contains(k) <==> start.tagged(tag).contains(
                k,
            )),
{
}

/// Filters that are alike, node for node, select the same rows: so does the copy of a filter.
pub proof fn filters_that_are_alike_select_alike(
    index: &FacetIndex,
    filter: Filter,
    copy: Filter,
    id: u32,
)
    requires
        filter.same(copy),
    ensures
        index.selected(filter).contains(id) <==> index.selected(copy).contains(id),
    decreases filter,
{
    match (filter, copy) {
        (Filter::Not(a), Filter::Not(b)) => {
            filters_that_are_alike_select_alike(index, *a, *b, id);
        },
        (Filter::AllOf(a), Filter::AllOf(b)) => {
            assert forall|i: int| 0 <= i < a@.len() implies index.accepts(#[trigger] a@[i], id)
                == index.accepts(b@[i], id) by {
                assert(a@[i].same(b@[i]));
                assert(decreases_to!(filter => filter->AllOf_0@[i]));
                filters_that_are_alike_select_alike(index, a@[i], b@[i], id);
                assert(index.selected(a@[i]).contains(id) == index.selected(b@[i]).contains(id));
            }
            if index.accepts(filter, id) {
                assert forall|i: int| 0 <= i < b@.len() implies index.accepts(
                    #[trigger] b@[i],
                    id,
                ) by {
                    assert(index.accepts(a@[i], id));
                }
                assert(index.accepts(copy, id));
            }
            if index.accepts(copy, id) {
                assert forall|i: int| 0 <= i < a@.len() implies index.accepts(
                    #[trigger] a@[i],
                    id,
                ) by {
                    assert(index.accepts(b@[i], id));
                }
                assert(index.accepts(filter, id));
            }
        },
        (Filter::AnyOf(a), Filter::AnyOf(b)) => {
            assert forall|i: int| 0 <= i < a@.len() implies index.accepts(#[trigger] a@[i], id)
                == index.accepts(b@[i], id) by {
                assert(a@[i].same(b@[i]));
                assert(decreases_to!(filter => filter->AnyOf_0@[i]));
                filters_that_are_alike_select_alike(index, a@[i], b@[i], id);
                assert(index.selected(a@[i]).contains(id) == index.selected(b@[i]).contains(id));
            }
            if index.accepts(filter, id) {
                let i = choose|i: int| 0 <= i < a@.len() && index.accepts(#[trigger] a@[i], id);
                assert(index.accepts(b@[i], id));
                assert(index.accepts(copy, id));
            }
            if index.accepts(copy, id) {
                let i = choose|i: int| 0 <= i < b@.len() && index.accepts(#[trigger] b@[i], id);
                assert(index.accepts(a@[i], id));
                assert(index.accepts(filter, id));
            }
        },
        _ => {},
    }
}

/// What is live and in a category, and what two indexes with the same contents have in common.
pub proof fn categories_hold_live_rows(index: &FacetIndex, other: &FacetIndex, category: u32, id: u32)
    ensures
        index.in_category(category).contains(id) <==> index.live().contains(id) && index.row(
            id,
        ).category == Some(category),
        index.same_contents(other) ==> other.live() == index.live()
            && other.trash() == index.trash()
            && other.row(id) == index.row(id) && other.tagged(category) == index.tagged(category),
{
}

} // verus!
