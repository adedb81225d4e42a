//! Sets of ids, kept in Roaring bitmaps.

use roaring::RoaringBitmap;
use vstd::prelude::*;

verus! {

/// A compressed set of `u32` values, from the crate `roaring`.
#[verifier::external_type_specification]
#[verifier::external_body]
pub struct ExRoaringBitmap(RoaringBitmap);

/// The values that a bitmap holds.
pub uninterp spec fn ids(bitmap: RoaringBitmap) -> Set<u32>;

/// `RoaringBitmap::new` makes the empty set.
pub assume_specification[ RoaringBitmap::new ]() -> (r: RoaringBitmap)
    ensures
        ids(r) == Set::<u32>::empty(),
;

/// `RoaringBitmap::insert` adds a value and says whether it was absent.
pub assume_specification[ RoaringBitmap::insert ](bitmap: &mut RoaringBitmap, value: u32) -> (r:
    bool)
    ensures
        ids(*final(bitmap)) == ids(*old(bitmap)).insert(value),
        r == !ids(*old(bitmap)).contains(value),
;

/// `RoaringBitmap::remove` takes a value out and says whether it was present.
pub assume_specification[ RoaringBitmap::remove ](bitmap: &mut RoaringBitmap, value: u32) -> (r:
    bool)
    ensures
        ids(*final(bitmap)) == ids(*old(bitmap)).remove(value),
        r == ids(*old(bitmap)).contains(value),
;

/// `RoaringBitmap::contains` tests membership.
pub assume_specification[ RoaringBitmap::contains ](bitmap: &RoaringBitmap, value: u32) -> (r: bool)
    ensures
        r == ids(*bitmap).contains(value),
;

/// `RoaringBitmap::is_empty` says whether the set has no member.
pub assume_specification[ RoaringBitmap::is_empty ](bitmap: &RoaringBitmap) -> (r: bool)
    ensures
        r == (ids(*bitmap) == Set::<u32>::empty()),
;

/// `RoaringBitmap::len` counts the members.
pub assume_specification[ RoaringBitmap::len ](bitmap: &RoaringBitmap) -> (r: u64)
    ensures
        r == ids(*bitmap).len(),
;

/// `RoaringBitmap::clone`: a bitmap with the same members.
#[verifier::external_body]
pub(crate) fn copy_of(bitmap: &RoaringBitmap) -> (r: RoaringBitmap)
    ensures
        ids(r) == ids(*bitmap),
{
    bitmap.clone()
}

/// `-` on two `&RoaringBitmap`: the difference of the sets.
#[verifier::external_body]
pub(crate) fn difference(left: &RoaringBitmap, right: &RoaringBitmap) -> (r: RoaringBitmap)
    ensures
        ids(r) == ids(*left).difference(ids(*right)),
{
    left - right
}

/// `&` on two `&RoaringBitmap`: the intersection of the sets.
#[verifier::external_body]
pub(crate) fn intersection(left: &RoaringBitmap, right: &RoaringBitmap) -> (r: RoaringBitmap)
    ensures
        ids(r) == ids(*left).intersect(ids(*right)),
{
    left & right
}

/// `|=` with a `&RoaringBitmap`: the union of the sets.
#[verifier::external_body]
pub(crate) fn unite(left: &mut RoaringBitmap, right: &RoaringBitmap)
    ensures
        ids(*final(left)) == ids(*old(left)).union(ids(*right)),
{
    *left |= right;
}

/// `list` holds the members of `set`, each once, in ascending order.
pub open spec fn ascending(list: Seq<u32>, set: Set<u32>) -> bool {
    &&& forall|a: int, b: int| 0 <= a < b < list.len() ==> #[trigger] list[a] < #[trigger] list[b]
    &&& forall|id: u32| #[trigger] list.contains(id) <==> set.contains(id)
}

/// `RoaringBitmap::iter` walks the members in ascending order.
#[verifier::external_body]
pub(crate) fn members(bitmap: &RoaringBitmap) -> (r: Vec<u32>)
    ensures
        ascending(r@, ids(*bitmap)),
{
    bitmap.iter().collect()
}

} // verus!
