//! A bounded cache that forgets what was used least recently, from the crate `lru`.

use std::num::NonZeroUsize;

use lru::LruCache;
use vstd::prelude::*;

verus! {

/// The hasher of a cache.
#[verifier::external_type_specification]
#[verifier::external_body]
pub struct ExDefaultHasher(lru::DefaultHasher);

/// A bounded cache, from the crate `lru`.
#[verifier::external_type_specification]
#[verifier::external_body]
#[verifier::reject_recursive_types(K)]
#[verifier::reject_recursive_types(V)]
#[verifier::reject_recursive_types(S)]
pub struct ExLruCache<K, V, S>(LruCache<K, V, S>);

/// The keys of a cache with their values, the one that was used last in front.
pub uninterp spec fn entries(cache: LruCache<u32, u64>) -> Seq<(u32, u64)>;

/// How many entries a cache holds at most.
pub uninterp spec fn limit(cache: LruCache<u32, u64>) -> nat;

/// Where a key stands among entries; their number where it does not.
pub open spec fn place(entries: Seq<(u32, u64)>, key: u32) -> int
    decreases entries.len(),
{
    if entries.len() == 0 || entries[0].0 == key {
        0
    } else {
        1 + place(entries.drop_first(), key)
    }
}

/// The entries once a key has been used.
pub open spec fn touched(entries: Seq<(u32, u64)>, key: u32) -> Seq<(u32, u64)> {
    let at = place(entries, key);
    if at < entries.len() {
        seq![entries[at]] + entries.remove(at)
    } else {
        entries
    }
}

/// The entries once a key has been given a value. A full cache forgets its last entry for a
/// new key.
pub open spec fn stored(entries: Seq<(u32, u64)>, limit: nat, key: u32, value: u64) -> Seq<
    (u32, u64),
> {
    let at = place(entries, key);
    if at < entries.len() {
        seq![(key, value)] + entries.remove(at)
    } else if entries.len() == limit {
        seq![(key, value)] + entries.drop_last()
    } else {
        seq![(key, value)] + entries
    }
}

/// `LruCache::new`: an empty cache for `capacity` entries. A capacity whose table cannot be
/// addressed is left out: for one, `new` panics.
#[verifier::external_body]
pub(crate) fn new_cache(capacity: usize) -> (r: LruCache<u32, u64>)
    requires
        0 < capacity <= usize::MAX / 256,
    ensures
        entries(r) == Seq::<(u32, u64)>::empty(),
        limit(r) == capacity,
{
    LruCache::new(NonZeroUsize::new(capacity).unwrap_or(NonZeroUsize::MIN))
}

/// `LruCache::get`: the value of a key, which moves to the front.
#[verifier::external_body]
pub(crate) fn cache_get(cache: &mut LruCache<u32, u64>, key: u32) -> (r: Option<u64>)
    ensures
        entries(*final(cache)) == touched(entries(*old(cache)), key),
        limit(*final(cache)) == limit(*old(cache)),
        r == if place(entries(*old(cache)), key) < entries(*old(cache)).len() {
            Some(entries(*old(cache))[place(entries(*old(cache)), key)].1)
        } else {
            None
        },
{
    cache.get(&key).copied()
}

/// `LruCache::put`: the value takes its place in front. A cache that is full forgets its last
/// entry for a new key.
#[verifier::external_body]
pub(crate) fn cache_put(cache: &mut LruCache<u32, u64>, key: u32, value: u64)
    ensures
        entries(*final(cache)) == stored(entries(*old(cache)), limit(*old(cache)), key, value),
        limit(*final(cache)) == limit(*old(cache)),
{
    cache.put(key, value);
}

/// `LruCache::pop`: the entry of a key goes, and the others keep their order.
#[verifier::external_body]
pub(crate) fn cache_pop(cache: &mut LruCache<u32, u64>, key: u32)
    ensures
        entries(*final(cache)) == if place(entries(*old(cache)), key) < entries(*old(cache)).len() {
            entries(*old(cache)).remove(place(entries(*old(cache)), key))
        } else {
            entries(*old(cache))
        },
        limit(*final(cache)) == limit(*old(cache)),
{
    cache.pop(&key);
}

/// `LruCache::clear`: no entry is left.
#[verifier::external_body]
pub(crate) fn cache_clear(cache: &mut LruCache<u32, u64>)
    ensures
        entries(*final(cache)) == Seq::<(u32, u64)>::empty(),
        limit(*final(cache)) == limit(*old(cache)),
{
    cache.clear();
}

/// `LruCache::len`: the number of entries.
#[verifier::external_body]
pub(crate) fn cache_len(cache: &LruCache<u32, u64>) -> (r: usize)
    ensures
        r == entries(*cache).len(),
{
    cache.len()
}

/// `LruCache::iter`: the entries in their order.
#[verifier::external_body]
pub(crate) fn cache_entries(cache: &LruCache<u32, u64>) -> (r: Vec<(u32, u64)>)
    ensures
        r@ == entries(*cache),
{
    cache.iter().map(|(key, value)| (*key, *value)).collect()
}

/// A key that was given a value stands in front with it; every other entry that stays is as it
/// was, and only a full cache forgets one, the last, for a new key.
pub proof fn stored_entries_come_first(
    entries: Seq<(u32, u64)>,
    limit: nat,
    key: u32,
    value: u64,
    other: (u32, u64),
)
    requires
        limit > 0,
    ensures
        stored(entries, limit, key, value).len() > 0,
        stored(entries, limit, key, value)[0] == (key, value),
        stored(entries, limit, key, value).contains(other) ==> other == (key, value)
            || entries.contains(other),
        entries.contains(other) && other.0 != key && (entries.len() != limit || other
            != entries.last()) ==> stored(entries, limit, key, value).contains(other),
        entries.len() <= limit ==> stored(entries, limit, key, value).len() <= limit,
{
    places_are_the_first(entries, key);
    let at = place(entries, key);
    let after = stored(entries, limit, key, value);
    if after.contains(other) {
        let i = choose|i: int| 0 <= i < after.len() && after[i] == other;
        if i > 0 {
            if at < entries.len() {
                assert(other == entries.remove(at)[i - 1]);
                assert(entries.remove(at)[i - 1] == entries[if i - 1 < at {
                    i - 1
                } else {
                    i
                }]);
            } else if entries.len() == limit {
                assert(entries.drop_last()[i - 1] == other);
                assert(entries[i - 1] == other);
            } else {
                assert(entries[i - 1] == other);
            }
        }
    }
    if entries.contains(other) && other.0 != key && (entries.len() != limit || other
        != entries.last()) {
        let i = choose|i: int| 0 <= i < entries.len() && entries[i] == other;
        if at < entries.len() {
            assert(i != at);
            let j = if i < at {
                i
            } else {
                i - 1
            };
            assert(entries.remove(at)[j] == other);
            assert(after[j + 1] == other);
        } else {
            assert(after[i + 1] == other);
        }
    }
}

/// A key that was used stands in front; the entries are the same otherwise.
pub proof fn touched_entries_come_first(entries: Seq<(u32, u64)>, key: u32)
    ensures
        touched(entries, key).len() == entries.len(),
        (exists|i: int| 0 <= i < entries.len() && (#[trigger] entries[i]).0 == key) ==> touched(
            entries,
            key,
        )[0].0 == key,
        touched(entries, key).to_multiset() == entries.to_multiset(),
{
    places_are_the_first(entries, key);
    let at = place(entries, key);
    if at < entries.len() {
        broadcast use vstd::seq_lib::group_to_multiset_ensures;

        let rest = entries.remove(at);
        assert(seq![entries[at]] + rest =~= rest.insert(0, entries[at]));
        assert(rest.insert(0, entries[at]).to_multiset() =~= rest.to_multiset().insert(
            entries[at],
        ));
        assert(entries.to_multiset() =~= rest.to_multiset().insert(entries[at]));
    }
}

/// The place of a key is the first at which it stands, and their number where it does not.
pub proof fn places_are_the_first(entries: Seq<(u32, u64)>, key: u32)
    ensures
        0 <= place(entries, key) <= entries.len(),
        place(entries, key) < entries.len() ==> entries[place(entries, key)].0 == key,
        forall|i: int| 0 <= i < place(entries, key) ==> (#[trigger] entries[i]).0 != key,
    decreases entries.len(),
{
    if entries.len() > 0 && entries[0].0 != key {
        let rest = entries.drop_first();
        places_are_the_first(rest, key);
        assert forall|i: int| 0 <= i < place(entries, key) implies (#[trigger] entries[i]).0
            != key by {
            if i > 0 {
                assert(rest[i - 1] == entries[i]);
            }
        }
    }
}

} // verus!
