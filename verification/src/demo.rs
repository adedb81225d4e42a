//! What is shown where there is no library: made-up assets, the newest first.

use vstd::prelude::*;

use crate::digits::{padded, push_padded, push_text};
use crate::domain::{
    Asset, AssetId, AssetKind, CategoryId, SortDirection, SortField, SortSpec, Sorter, TagId,
};
use crate::index::{FacetIndex, Row};
use crate::text::string_of;

verus! {

/// How many assets are made up.
pub const DEMO_COUNT: u32 = 500;

/// What is stored of a made-up asset.
pub open spec fn demo_row(i: u32) -> Row {
    Row {
        name: "演示资产-"@ + padded(i as nat, 4),
        category: Some(i % 5),
        created_at: i as i64,
        size_bytes: None,
        kind: AssetKind::Image,
    }
}

fn demo_asset(i: u32) -> (r: Asset)
    ensures
        r.id == AssetId(i),
        crate::index::row_of(r) == demo_row(i),
        r.tags@ == seq![TagId(i % 7)],
{
    let mut name: Vec<char> = Vec::new();
    push_text(&mut name, "演示资产-");
    push_padded(&mut name, i as u64, 4);
    assert(name@ =~= "演示资产-"@ + padded(i as nat, 4));
    let mut tags: Vec<TagId> = Vec::new();
    tags.push(TagId(i % 7));
    Asset {
        id: AssetId(i),
        name: string_of(name),
        category: Some(CategoryId(i % 5)),
        tags,
        created_at: i as i64,
        size_bytes: None,
        kind: AssetKind::Image,
    }
}

/// An index of the first `n` made-up assets and of nothing else.
pub open spec fn holds_demo(index: FacetIndex, n: u32) -> bool {
    &&& forall|id: u32| #[trigger] index.live().contains(id) <==> id < n
    &&& forall|id: u32| !(#[trigger] index.trash().contains(id))
    &&& forall|id: u32| id < n ==> #[trigger] index.row(id) == demo_row(id)
    &&& forall|tag: u32, id: u32| #[trigger]
        index.tagged(tag).contains(id) <==> id < n && id % 7 == tag
}

/// The made-up assets.
pub fn demo_index() -> (r: FacetIndex)
    ensures
        r.wf(),
        holds_demo(r, DEMO_COUNT),
{
    let mut index = FacetIndex::new();
    let mut i: u32 = 0;
    while i < DEMO_COUNT
        invariant
            i <= DEMO_COUNT,
            index.wf(),
            holds_demo(index, i),
        decreases DEMO_COUNT - i,
    {
        let asset = demo_asset(i);
        let ghost before = index;
        index.insert(&asset);
        proof {
            assert forall|tag: u32, id: u32| #[trigger]
                index.tagged(tag).contains(id) <==> id < i + 1 && id % 7 == tag by {
                assert(index.tagged(tag) == if asset.tags@.contains(TagId(tag)) {
                    before.tagged(tag).insert(i)
                } else {
                    before.tagged(tag).remove(i)
                });
                assert(asset.tags@[0] == TagId(i % 7));
                assert(asset.tags@.contains(TagId(tag)) <==> tag == i % 7);
                assert(before.tagged(tag).contains(id) <==> id < i && id % 7 == tag);
            }
        }
        i = i + 1;
    }
    index
}

/// The newest first.
pub fn recent_first_sorter() -> (r: Sorter)
    ensures
        r.keys@ == seq![
            SortSpec { field: SortField::CreatedAt, direction: SortDirection::Desc },
        ],
{
    let mut keys: Vec<SortSpec> = Vec::new();
    keys.push(SortSpec { field: SortField::CreatedAt, direction: SortDirection::Desc });
    Sorter { keys }
}

/// Five hundred assets are made up: pictures, numbered from nothing up and as old as their
/// number says, in five categories and with seven tags by turns, of unknown size.
pub proof fn demo_assets_are_numbered(index: FacetIndex, id: u32, tag: u32)
    requires
        holds_demo(index, DEMO_COUNT),
    ensures
        DEMO_COUNT == 500,
        index.live().contains(id) <==> id < 500,
        !index.trash().contains(id),
        id < 500 ==> {
            &&& index.row(id).name == "演示资产-"@ + padded(id as nat, 4)
            &&& index.row(id).category == Some(id % 5)
            &&& index.row(id).created_at == id
            &&& index.row(id).size_bytes is None
            &&& index.row(id).kind == AssetKind::Image
            &&& index.tagged(tag).contains(id) <==> tag == id % 7
        },
{
}

} // verus!
