//! Assets, and how they are filtered and sorted.

use vstd::prelude::*;
use vstd::utf8::encode_utf8;

use crate::order::{sorted_positions, Ranked};
#[allow(unused_imports)]
use crate::order::{in_order, is_permutation, stable_sort, stably_reads};

verus! {

#[derive(Debug, Clone, Copy, PartialEq, Eq, Hash, PartialOrd, Ord, Structural)]
pub struct AssetId(pub u32);

#[derive(Debug, Clone, Copy, PartialEq, Eq, Hash, PartialOrd, Ord, Structural)]
pub struct CategoryId(pub u32);

#[derive(Debug, Clone, Copy, PartialEq, Eq, Hash, PartialOrd, Ord, Structural)]
pub struct TagId(pub u32);

/// The kind of an asset. The order of the variants is the order that sorting by kind
/// follows.
#[derive(Debug, Clone, Copy, PartialEq, Eq, Hash, PartialOrd, Ord, Structural)]
pub enum AssetKind {
    Image,
    Video,
    Text,
    Other,
}

impl AssetKind {
    /// The place of the kind in the order Image, Video, Text, Other.
    pub open spec fn place(self) -> int {
        match self {
            AssetKind::Image => 0,
            AssetKind::Video => 1,
            AssetKind::Text => 2,
            AssetKind::Other => 3,
        }
    }

    fn place_of(self) -> (r: u64)
        ensures
            r == self.place(),
    {
        match self {
            AssetKind::Image => 0,
            AssetKind::Video => 1,
            AssetKind::Text => 2,
            AssetKind::Other => 3,
        }
    }
}

#[derive(Debug, Clone, PartialEq, Eq)]
pub struct Asset {
    pub id: AssetId,
    pub name: String,
    pub category: Option<CategoryId>,
    pub tags: Vec<TagId>,
    pub created_at: i64,
    /// Size of the file in bytes, where it is known.
    pub size_bytes: Option<u64>,
    pub kind: AssetKind,
}

/// A tree of predicates over assets. [`crate::index::FacetIndex::evaluate`] says what it
/// selects.
#[derive(Debug, PartialEq, Eq)]
pub enum Filter {
    All,
    InCategory(CategoryId),
    HasTag(TagId),
    /// The file name holds the text, whatever the case.
    NameContains(String),
    /// One of the given ids, as far as they are live.
    NameIn(Vec<u32>),
    /// What lies in the trash.
    Trash,
    Not(Box<Filter>),
    AllOf(Vec<Filter>),
    AnyOf(Vec<Filter>),
}

#[derive(Debug, Clone, Copy, PartialEq, Eq, Structural)]
pub enum SortDirection {
    Asc,
    Desc,
}

#[derive(Debug, Clone, Copy, PartialEq, Eq, Structural)]
pub enum SortField {
    CreatedAt,
    Name,
    /// Size of the file. An unknown size comes last in either direction.
    Size,
    /// Image, Video, Text, Other.
    Kind,
}

#[derive(Debug, Clone, Copy, PartialEq, Eq, Structural)]
pub struct SortSpec {
    pub field: SortField,
    pub direction: SortDirection,
}

/// A stable sort by several keys, the first of them the strongest.
#[derive(Debug, Clone, PartialEq, Eq)]
pub struct Sorter {
    pub keys: Vec<SortSpec>,
}

/// A named filter with the order to show its assets in.
#[derive(Debug, Clone, PartialEq, Eq)]
pub struct SmartFolder {
    pub name: String,
    pub filter: Filter,
    pub sorter: Sorter,
}

impl Filter {
    /// The two trees are alike, node for node.
    pub open spec fn same(self, other: Filter) -> bool
        decreases self,
    {
        match (self, other) {
            (Filter::All, Filter::All) => true,
            (Filter::InCategory(a), Filter::InCategory(b)) => a == b,
            (Filter::HasTag(a), Filter::HasTag(b)) => a == b,
            (Filter::NameContains(a), Filter::NameContains(b)) => a@ == b@,
            (Filter::NameIn(a), Filter::NameIn(b)) => a@ == b@,
            (Filter::Trash, Filter::Trash) => true,
            (Filter::Not(a), Filter::Not(b)) => a.same(*b),
            (Filter::AllOf(a), Filter::AllOf(b)) => {
                &&& a.len() == b.len()
                &&& forall|i: int| 0 <= i < a.len() ==> (#[trigger] a@[i]).same(b@[i])
            },
            (Filter::AnyOf(a), Filter::AnyOf(b)) => {
                &&& a.len() == b.len()
                &&& forall|i: int| 0 <= i < a.len() ==> (#[trigger] a@[i]).same(b@[i])
            },
            _ => false,
        }
    }
}

impl Clone for Filter {
    fn clone(&self) -> (r: Filter)
        ensures
            self.same(r),
        decreases self,
    {
        match self {
            Filter::All => Filter::All,
            Filter::InCategory(category) => Filter::InCategory(*category),
            Filter::HasTag(tag) => Filter::HasTag(*tag),
            Filter::NameContains(needle) => Filter::NameContains(needle.clone()),
            Filter::NameIn(ids) => {
                let mut copy: Vec<u32> = Vec::new();
                let mut i: usize = 0;
                while i < ids.len()
                    invariant
                        i <= ids@.len(),
                        copy@ == ids@.take(i as int),
                    decreases ids@.len() - i,
                {
                    copy.push(ids[i]);
                    i = i + 1;
                }
                assert(ids@.take(ids@.len() as int) =~= ids@);
                Filter::NameIn(copy)
            },
            Filter::Trash => Filter::Trash,
            Filter::Not(inner) => Filter::Not(Box::new((&**inner).clone())),
            Filter::AllOf(filters) => {
                let mut copy: Vec<Filter> = Vec::new();
                let mut i: usize = 0;
                while i < filters.len()
                    invariant
                        *self == Filter::AllOf(*filters),
                        i <= filters@.len(),
                        copy@.len() == i,
                        forall|k: int| 0 <= k < i ==> (#[trigger] filters@[k]).same(copy@[k]),
                    decreases filters@.len() - i,
                {
                    let filter = &filters[i];
                    assert(decreases_to!(self => self->AllOf_0@[i as int]));
                    copy.push(filter.clone());
                    i = i + 1;
                }
                Filter::AllOf(copy)
            },
            Filter::AnyOf(filters) => {
                let mut copy: Vec<Filter> = Vec::new();
                let mut i: usize = 0;
                while i < filters.len()
                    invariant
                        *self == Filter::AnyOf(*filters),
                        i <= filters@.len(),
                        copy@.len() == i,
                        forall|k: int| 0 <= k < i ==> (#[trigger] filters@[k]).same(copy@[k]),
                    decreases filters@.len() - i,
                {
                    let filter = &filters[i];
                    assert(decreases_to!(self => self->AnyOf_0@[i as int]));
                    copy.push(filter.clone());
                    i = i + 1;
                }
                Filter::AnyOf(copy)
            },
        }
    }
}

impl Default for Sorter {
    fn default() -> (r: Self)
        ensures
            r.keys@.len() == 0,
    {
        Sorter { keys: Vec::new() }
    }
}

/// How one thing stands to another in an order.
#[derive(Debug, Clone, Copy, PartialEq, Eq, Structural)]
pub enum Rank {
    Before,
    Same,
    After,
}

impl Rank {
    pub open spec fn flipped(self) -> Rank {
        match self {
            Rank::Before => Rank::After,
            Rank::Same => Rank::Same,
            Rank::After => Rank::Before,
        }
    }

    fn flip(self) -> (r: Rank)
        ensures
            r == self.flipped(),
    {
        match self {
            Rank::Before => Rank::After,
            Rank::Same => Rank::Same,
            Rank::After => Rank::Before,
        }
    }
}

/// What sorting looks at in an asset.
pub struct Traits {
    pub name: Seq<char>,
    pub created_at: i64,
    pub size_bytes: Option<u64>,
    pub kind: AssetKind,
}

impl Asset {
    pub open spec fn traits(self) -> Traits {
        Traits {
            name: self.name@,
            created_at: self.created_at,
            size_bytes: self.size_bytes,
            kind: self.kind,
        }
    }
}

pub open spec fn number_rank(a: int, b: int) -> Rank {
    if a < b {
        Rank::Before
    } else if a == b {
        Rank::Same
    } else {
        Rank::After
    }
}

/// Lexicographic order of byte strings.
pub open spec fn bytes_rank(a: Seq<u8>, b: Seq<u8>) -> Rank
    decreases a.len(),
{
    if a.len() == 0 || b.len() == 0 {
        number_rank(a.len() as int, b.len() as int)
    } else if a[0] != b[0] {
        number_rank(a[0] as int, b[0] as int)
    } else {
        bytes_rank(a.drop_first(), b.drop_first())
    }
}

/// The order of names: that of their UTF-8 bytes.
pub open spec fn name_rank(a: Seq<char>, b: Seq<char>) -> Rank {
    bytes_rank(encode_utf8(a), encode_utf8(b))
}

pub open spec fn directed(direction: SortDirection, rank: Rank) -> Rank {
    match direction {
        SortDirection::Asc => rank,
        SortDirection::Desc => rank.flipped(),
    }
}

/// Sizes: the direction orders known sizes only, an unknown size comes after each of
/// them.
pub open spec fn size_rank(a: Option<u64>, b: Option<u64>, direction: SortDirection) -> Rank {
    match (a, b) {
        (Some(x), Some(y)) => directed(direction, number_rank(x as int, y as int)),
        (Some(_), None) => Rank::Before,
        (None, Some(_)) => Rank::After,
        (None, None) => Rank::Same,
    }
}

/// The order by one key.
pub open spec fn key_rank(key: SortSpec, a: Traits, b: Traits) -> Rank {
    match key.field {
        SortField::CreatedAt => directed(
            key.direction,
            number_rank(a.created_at as int, b.created_at as int),
        ),
        SortField::Name => directed(key.direction, name_rank(a.name, b.name)),
        SortField::Size => size_rank(a.size_bytes, b.size_bytes, key.direction),
        SortField::Kind => directed(key.direction, number_rank(a.kind.place(), b.kind.place())),
    }
}

/// The order by several keys: the first key that tells the two apart decides.
pub open spec fn keys_rank(keys: Seq<SortSpec>, a: Traits, b: Traits) -> Rank
    decreases keys.len(),
{
    if keys.len() == 0 {
        Rank::Same
    } else if key_rank(keys[0], a, b) != Rank::Same {
        key_rank(keys[0], a, b)
    } else {
        keys_rank(keys.drop_first(), a, b)
    }
}

/// `a` may stand before `b` by `keys`.
pub open spec fn may_precede(keys: Seq<SortSpec>, a: Traits, b: Traits) -> bool {
    keys_rank(keys, a, b) != Rank::After
}

impl Sorter {
    /// The order of assets that this sorter stands for.
    pub open spec fn asset_order(self) -> spec_fn(Asset, Asset) -> bool {
        |a: Asset, b: Asset| may_precede(self.keys@, a.traits(), b.traits())
    }
}

proof fn bytes_rank_flips(a: Seq<u8>, b: Seq<u8>)
    ensures
        bytes_rank(b, a) == bytes_rank(a, b).flipped(),
    decreases a.len(),
{
    if a.len() > 0 && b.len() > 0 && a[0] == b[0] {
        bytes_rank_flips(a.drop_first(), b.drop_first());
    }
}

/// How the rank of two things follows from their ranks against a third.
spec fn chained(ab: Rank, bc: Rank, ac: Rank) -> bool {
    &&& ab == Rank::Same ==> ac == bc
    &&& bc == Rank::Same ==> ac == ab
    &&& ab == bc ==> ac == ab
}

proof fn bytes_rank_chains(a: Seq<u8>, b: Seq<u8>, c: Seq<u8>)
    ensures
        chained(bytes_rank(a, b), bytes_rank(b, c), bytes_rank(a, c)),
    decreases a.len(),
{
    if a.len() > 0 && b.len() > 0 && c.len() > 0 {
        bytes_rank_chains(a.drop_first(), b.drop_first(), c.drop_first());
    }
}

proof fn key_rank_flips(key: SortSpec, a: Traits, b: Traits)
    ensures
        key_rank(key, b, a) == key_rank(key, a, b).flipped(),
{
    bytes_rank_flips(encode_utf8(a.name), encode_utf8(b.name));
}

proof fn key_rank_chains(key: SortSpec, a: Traits, b: Traits, c: Traits)
    ensures
        chained(key_rank(key, a, b), key_rank(key, b, c), key_rank(key, a, c)),
{
    bytes_rank_chains(encode_utf8(a.name), encode_utf8(b.name), encode_utf8(c.name));
}

/// Exchanging two assets flips their rank.
pub proof fn keys_rank_flips(keys: Seq<SortSpec>, a: Traits, b: Traits)
    ensures
        keys_rank(keys, b, a) == keys_rank(keys, a, b).flipped(),
    decreases keys.len(),
{
    if keys.len() > 0 {
        key_rank_flips(keys[0], a, b);
        keys_rank_flips(keys.drop_first(), a, b);
    }
}

proof fn keys_rank_chains(keys: Seq<SortSpec>, a: Traits, b: Traits, c: Traits)
    ensures
        chained(keys_rank(keys, a, b), keys_rank(keys, b, c), keys_rank(keys, a, c)),
    decreases keys.len(),
{
    if keys.len() > 0 {
        key_rank_chains(keys[0], a, b, c);
        keys_rank_chains(keys.drop_first(), a, b, c);
    }
}

/// Any two assets can be ordered.
pub proof fn sort_order_is_total(keys: Seq<SortSpec>, a: Traits, b: Traits)
    ensures
        may_precede(keys, a, b) || may_precede(keys, b, a),
{
    keys_rank_flips(keys, a, b);
}

/// The order of a sorter is transitive.
pub proof fn sort_order_is_transitive(keys: Seq<SortSpec>, a: Traits, b: Traits, c: Traits)
    requires
        may_precede(keys, a, b),
        may_precede(keys, b, c),
    ensures
        may_precede(keys, a, c),
{
    keys_rank_chains(keys, a, b, c);
}

/// Sorted by size first, in either direction, assets of unknown size form the tail.
pub proof fn unknown_sizes_come_last(
    sorter: Sorter,
    input: Seq<Asset>,
    output: Seq<Asset>,
    i: int,
    j: int,
)
    requires
        stable_sort(sorter.asset_order(), input, output),
        sorter.keys@.len() > 0,
        sorter.keys@[0].field == SortField::Size,
        0 <= i < j < output.len(),
        output[i].size_bytes is None,
    ensures
        output[j].size_bytes is None,
{
    let perm = choose|perm: Seq<int>| stably_reads(sorter.asset_order(), input, perm, output);
    assert((sorter.asset_order())(output[i], output[j]));
}

/// Assets that no key tells apart keep their order; without keys nothing moves.
pub proof fn sorting_without_keys_keeps_the_order(input: Seq<Asset>, sorter: Sorter)
    requires
        sorter.keys@.len() == 0,
    ensures
        stable_sort(sorter.asset_order(), input, input),
{
    let perm = Seq::new(input.len(), |i: int| i);
    assert forall|k: int| 0 <= k < input.len() implies #[trigger] perm.contains(k) by {
        assert(perm[k] == k);
    }
    assert(stably_reads(sorter.asset_order(), input, perm, input));
}

fn rank_i64(a: i64, b: i64) -> (r: Rank)
    ensures
        r == number_rank(a as int, b as int),
{
    if a < b {
        Rank::Before
    } else if a == b {
        Rank::Same
    } else {
        Rank::After
    }
}

fn rank_u64(a: u64, b: u64) -> (r: Rank)
    ensures
        r == number_rank(a as int, b as int),
{
    if a < b {
        Rank::Before
    } else if a == b {
        Rank::Same
    } else {
        Rank::After
    }
}

fn rank_names(a: &str, b: &str) -> (r: Rank)
    ensures
        r == name_rank(a@, b@),
{
    let x = a.as_bytes();
    let y = b.as_bytes();
    let mut i: usize = 0;
    assert(x@.skip(0) =~= x@ && y@.skip(0) =~= y@);
    while i < x.len() && i < y.len() && x[i] == y[i]
        invariant
            i <= x@.len(),
            i <= y@.len(),
            bytes_rank(x@, y@) == bytes_rank(x@.skip(i as int), y@.skip(i as int)),
        decreases x@.len() - i,
    {
        proof {
            assert(x@.skip(i as int).drop_first() =~= x@.skip(i + 1));
            assert(y@.skip(i as int).drop_first() =~= y@.skip(i + 1));
        }
        i = i + 1;
    }
    if i == x.len() && i == y.len() {
        Rank::Same
    } else if i == x.len() {
        Rank::Before
    } else if i == y.len() {
        Rank::After
    } else if x[i] < y[i] {
        Rank::Before
    } else {
        Rank::After
    }
}

fn apply_dir(direction: SortDirection, rank: Rank) -> (r: Rank)
    ensures
        r == directed(direction, rank),
{
    match direction {
        SortDirection::Asc => rank,
        SortDirection::Desc => rank.flip(),
    }
}

fn sort_size(a: Option<u64>, b: Option<u64>, direction: SortDirection) -> (r: Rank)
    ensures
        r == size_rank(a, b, direction),
{
    match (a, b) {
        (Some(x), Some(y)) => apply_dir(direction, rank_u64(x, y)),
        (Some(_), None) => Rank::Before,
        (None, Some(_)) => Rank::After,
        (None, None) => Rank::Same,
    }
}

/// What sorting looks at, borrowed from where it is kept.
pub(crate) struct Sortable<'a> {
    pub(crate) name: &'a str,
    pub(crate) created_at: i64,
    pub(crate) size_bytes: Option<u64>,
    pub(crate) kind: AssetKind,
}

impl<'a> Sortable<'a> {
    pub(crate) open spec fn traits(self) -> Traits {
        Traits {
            name: self.name@,
            created_at: self.created_at,
            size_bytes: self.size_bytes,
            kind: self.kind,
        }
    }
}

/// The rank of `a` against `b` by `keys`.
pub(crate) fn rank_by(keys: &Vec<SortSpec>, a: &Sortable, b: &Sortable) -> (r: Rank)
    ensures
        r == keys_rank(keys@, a.traits(), b.traits()),
{
    let mut i: usize = 0;
    assert(keys@.skip(0) =~= keys@);
    while i < keys.len()
        invariant
            i <= keys@.len(),
            keys_rank(keys@, a.traits(), b.traits()) == keys_rank(
                keys@.skip(i as int),
                a.traits(),
                b.traits(),
            ),
        decreases keys@.len() - i,
    {
        let key = keys[i];
        let rank = match key.field {
            SortField::CreatedAt => apply_dir(key.direction, rank_i64(a.created_at, b.created_at)),
            SortField::Name => apply_dir(key.direction, rank_names(a.name, b.name)),
            SortField::Size => sort_size(a.size_bytes, b.size_bytes, key.direction),
            SortField::Kind => apply_dir(
                key.direction,
                rank_u64(a.kind.place_of(), b.kind.place_of()),
            ),
        };
        if rank != Rank::Same {
            return rank;
        }
        assert(keys@.skip(i as int).drop_first() =~= keys@.skip(i + 1));
        i = i + 1;
    }
    Rank::Same
}

struct AssetRanks<'a> {
    assets: &'a Vec<Asset>,
    keys: &'a Vec<SortSpec>,
}

impl<'a> Ranked for AssetRanks<'a> {
    closed spec fn count(&self) -> nat {
        self.assets@.len()
    }

    closed spec fn le(&self, i: int, j: int) -> bool {
        may_precede(self.keys@, self.assets@[i].traits(), self.assets@[j].traits())
    }

    proof fn total(&self, i: int, j: int) {
        sort_order_is_total(self.keys@, self.assets@[i].traits(), self.assets@[j].traits());
    }

    proof fn transitive(&self, i: int, j: int, k: int) {
        sort_order_is_transitive(
            self.keys@,
            self.assets@[i].traits(),
            self.assets@[j].traits(),
            self.assets@[k].traits(),
        );
    }

    fn leq(&self, i: usize, j: usize) -> (r: bool) {
        let a = &self.assets[i];
        let b = &self.assets[j];
        let left = Sortable {
            name: a.name.as_str(),
            created_at: a.created_at,
            size_bytes: a.size_bytes,
            kind: a.kind,
        };
        let right = Sortable {
            name: b.name.as_str(),
            created_at: b.created_at,
            size_bytes: b.size_bytes,
            kind: b.kind,
        };
        rank_by(self.keys, &left, &right) != Rank::After
    }
}

impl Sorter {
    /// Sorts `assets`; those that no key tells apart keep their order.
    pub fn sort_assets(&self, assets: &mut Vec<Asset>)
        ensures
            stable_sort(self.asset_order(), old(assets)@, final(assets)@),
    {
        let ghost input = assets@;
        let n: usize = assets.len();
        let ranks = AssetRanks { assets: &*assets, keys: &self.keys };
        let positions = sorted_positions(&ranks, n);
        let ghost perm: Seq<int> = positions@.map_values(|p: usize| p as int);
        proof {
            assert(forall|i: int, j: int|
                0 <= i < n && 0 <= j < n ==> ranks.le(i, j) == (self.asset_order())(
                    input[i],
                    input[j],
                ));
        }
        // Each asset is taken out of its slot when its turn comes.
        let mut slots: Vec<Option<Asset>> = Vec::with_capacity(n);
        while assets.len() > 0
            invariant
                input.len() == n,
                slots@.len() + assets@.len() == n,
                assets@ == input.take(assets@.len() as int),
                forall|k: int|
                    0 <= k < slots@.len() ==> #[trigger] slots@[k] == Some(input[n - 1 - k]),
            decreases assets@.len(),
        {
            let asset = assets.pop();
            slots.push(asset);
        }
        let mut at: usize = 0;
        while at < n
            invariant
                at <= n,
                n == input.len(),
                positions@.len() == n,
                slots@.len() == n,
                perm == positions@.map_values(|p: usize| p as int),
                in_order(&ranks, positions@, 0, n as int),
                assets@.len() == at,
                forall|a: int| 0 <= a < at ==> #[trigger] assets@[a] == input[perm[a]],
                forall|a: int|
                    at <= a < n ==> slots@[n - 1 - #[trigger] positions@[a]] == Some(
                        input[perm[a]],
                    ),
            decreases n - at,
        {
            let slot: usize = n - 1 - positions[at];
            let taken = slots[slot].take();
            if let Some(asset) = taken {
                assets.push(asset);
            }
            proof {
                assert forall|a: int| at < a < n implies slots@[n - 1 - #[trigger] positions@[a]]
                    == Some(input[perm[a]]) by {
                    assert(positions@[at as int] != positions@[a]);
                }
            }
            at = at + 1;
        }
        proof {
            let le = self.asset_order();
            assert forall|k: int| 0 <= k < n implies #[trigger] perm.contains(k) by {
                assert(positions@.contains(k as usize));
                let a = choose|a: int| 0 <= a < positions@.len() && positions@[a] == k as usize;
                assert(perm[a] == k);
            }
            assert(is_permutation(perm, input.len()));
            assert forall|a: int, b: int| 0 <= a < b < assets@.len() implies {
                &&& le(#[trigger] assets@[a], #[trigger] assets@[b])
                &&& le(assets@[b], assets@[a]) ==> perm[a] < perm[b]
            } by {
                assert(crate::order::before(&ranks, positions@[a] as int, positions@[b] as int));
            }
            assert(stably_reads(le, input, perm, assets@));
        }
    }
}

/// Where two byte strings first differ, or where one of them ends, decides their rank.
proof fn first_difference_decides(a: Seq<u8>, b: Seq<u8>, p: int)
    requires
        0 <= p <= a.len(),
        p <= b.len(),
        a.take(p) == b.take(p),
    ensures
        p == b.len() && p < a.len() ==> bytes_rank(a, b) == Rank::After,
        p < a.len() && p < b.len() && b[p] < a[p] ==> bytes_rank(a, b) == Rank::After,
    decreases p,
{
    if p > 0 {
        assert(a.take(p)[0] == a[0] && b.take(p)[0] == b[0]);
        assert(a.drop_first().take(p - 1) =~= a.take(p).drop_first());
        assert(b.drop_first().take(p - 1) =~= b.take(p).drop_first());
        first_difference_decides(a.drop_first(), b.drop_first(), p - 1);
    }
}

proof fn equal_bytes_are_the_same(a: Seq<u8>)
    ensures
        bytes_rank(a, a) == Rank::Same,
    decreases a.len(),
{
    if a.len() > 0 {
        equal_bytes_are_the_same(a.drop_first());
    }
}

/// Of two things in order, the first key in which they differ has them in its own order.
pub(crate) proof fn first_key_that_differs_decides(
    keys: Seq<SortSpec>,
    m: int,
    a: Traits,
    b: Traits,
)
    requires
        may_precede(keys, a, b),
        0 <= m < keys.len(),
        forall|k: int|
            0 <= k < m ==> match (#[trigger] keys[k]).field {
                SortField::CreatedAt => a.created_at == b.created_at,
                SortField::Name => a.name == b.name,
                SortField::Size => a.size_bytes == b.size_bytes,
                SortField::Kind => a.kind == b.kind,
            },
    ensures
        match (keys[m].field, keys[m].direction) {
            (SortField::CreatedAt, SortDirection::Asc) => a.created_at <= b.created_at,
            (SortField::CreatedAt, SortDirection::Desc) => a.created_at >= b.created_at,
            (SortField::Size, SortDirection::Asc) => match (a.size_bytes, b.size_bytes) {
                (Some(x), Some(y)) => x <= y,
                (None, Some(_)) => false,
                (_, None) => true,
            },
            (SortField::Size, SortDirection::Desc) => match (a.size_bytes, b.size_bytes) {
                (Some(x), Some(y)) => x >= y,
                (None, Some(_)) => false,
                (_, None) => true,
            },
            (SortField::Kind, SortDirection::Asc) => {
                &&& a.kind == AssetKind::Video ==> b.kind != AssetKind::Image
                &&& a.kind == AssetKind::Text ==> b.kind == AssetKind::Text || b.kind
                    == AssetKind::Other
                &&& a.kind == AssetKind::Other ==> b.kind == AssetKind::Other
            },
            (SortField::Kind, SortDirection::Desc) => {
                &&& b.kind == AssetKind::Video ==> a.kind != AssetKind::Image
                &&& b.kind == AssetKind::Text ==> a.kind == AssetKind::Text || a.kind
                    == AssetKind::Other
                &&& b.kind == AssetKind::Other ==> a.kind == AssetKind::Other
            },
            (SortField::Name, SortDirection::Asc) => {
                forall|p: int|
                    0 <= p <= encode_utf8(a.name).len() && p <= encode_utf8(b.name).len()
                        && #[trigger] encode_utf8(a.name).take(p) == encode_utf8(b.name).take(p)
                        ==> !(p == encode_utf8(b.name).len() && p < encode_utf8(a.name).len())
                            && !(p < encode_utf8(a.name).len()
                        && p < encode_utf8(b.name).len()
                            && encode_utf8(b.name)[p] < encode_utf8(a.name)[p])
            },
            (SortField::Name, SortDirection::Desc) => {
                forall|p: int|
                    0 <= p <= encode_utf8(b.name).len() && p <= encode_utf8(a.name).len()
                        && #[trigger] encode_utf8(b.name).take(p) == encode_utf8(a.name).take(p)
                        ==> !(p == encode_utf8(a.name).len() && p < encode_utf8(b.name).len())
                            && !(p < encode_utf8(b.name).len()
                        && p < encode_utf8(a.name).len()
                            && encode_utf8(a.name)[p] < encode_utf8(b.name)[p])
            },
        },
    decreases keys.len(),
{
    if m == 0 {
        let key = keys[0];
        assert(key_rank(key, a, b) != Rank::After);
        let x = encode_utf8(a.name);
        let y = encode_utf8(b.name);
        if key.field == SortField::Name {
            bytes_rank_flips(x, y);
            assert forall|p: int|
                0 <= p <= x.len() && p <= y.len() && #[trigger] x.take(p) == y.take(p)
                    && key.direction == SortDirection::Asc implies !(p == y.len() && p < x.len())
                && !(p < x.len() && p < y.len() && y[p] < x[p]) by {
                first_difference_decides(x, y, p);
            }
            assert forall|p: int|
                0 <= p <= y.len() && p <= x.len() && #[trigger] y.take(p) == x.take(p)
                    && key.direction == SortDirection::Desc implies !(p == x.len() && p < y.len())
                && !(p < y.len() && p < x.len() && x[p] < y[p]) by {
                first_difference_decides(y, x, p);
            }
        }
    } else {
        let rest = keys.drop_first();
        assert(keys[0].field == keys[0].field);
        if keys[0].field == SortField::Name {
            equal_bytes_are_the_same(encode_utf8(a.name));
        }
        assert(key_rank(keys[0], a, b) == Rank::Same);
        assert forall|k: int| 0 <= k < m - 1 implies match (#[trigger] rest[k]).field {
                SortField::CreatedAt => a.created_at == b.created_at,
                SortField::Name => a.name == b.name,
                SortField::Size => a.size_bytes == b.size_bytes,
                SortField::Kind => a.kind == b.kind,
            } by {
            assert(rest[k] == keys[k + 1]);
        }
        first_key_that_differs_decides(rest, m - 1, a, b);
    }
}

/// Sorted assets stand in the order of the first key in which they differ: earlier or later
/// dates first, smaller or larger files first with unknown sizes last, pictures, videos,
/// texts and the rest in this order or the other way round, and names by their UTF-8 bytes.
pub proof fn sorted_assets_follow_their_keys(
    sorter: Sorter,
    input: Seq<Asset>,
    output: Seq<Asset>,
    i: int,
    j: int,
    m: int,
)
    requires
        stable_sort(sorter.asset_order(), input, output),
        0 <= i < j < output.len(),
        0 <= m < sorter.keys@.len(),
        forall|k: int|
            0 <= k < m ==> match (#[trigger] sorter.keys@[k]).field {
                SortField::CreatedAt => output[i].created_at == output[j].created_at,
                SortField::Name => output[i].name@ == output[j].name@,
                SortField::Size => output[i].size_bytes == output[j].size_bytes,
                SortField::Kind => output[i].kind == output[j].kind,
            },
    ensures
        match (sorter.keys@[m].field, sorter.keys@[m].direction) {
            (SortField::CreatedAt, SortDirection::Asc) => output[i].created_at <= output[j].created_at,
            (SortField::CreatedAt, SortDirection::Desc) => output[i].created_at >= output[j].created_at,
            (SortField::Size, SortDirection::Asc) => match (output[i].size_bytes, output[j].size_bytes) {
                (Some(x), Some(y)) => x <= y,
                (None, Some(_)) => false,
                (_, None) => true,
            },
            (SortField::Size, SortDirection::Desc) => match (output[i].size_bytes, output[j].size_bytes) {
                (Some(x), Some(y)) => x >= y,
                (None, Some(_)) => false,
                (_, None) => true,
            },
            (SortField::Kind, SortDirection::Asc) => {
                &&& output[i].kind == AssetKind::Video ==> output[j].kind != AssetKind::Image
                &&& output[i].kind == AssetKind::Text ==> output[j].kind == AssetKind::Text
                    || output[j].kind
                    == AssetKind::Other
                &&& output[i].kind == AssetKind::Other ==> output[j].kind == AssetKind::Other
            },
            (SortField::Kind, SortDirection::Desc) => {
                &&& output[j].kind == AssetKind::Video ==> output[i].kind != AssetKind::Image
                &&& output[j].kind == AssetKind::Text ==> output[i].kind == AssetKind::Text
                    || output[i].kind
                    == AssetKind::Other
                &&& output[j].kind == AssetKind::Other ==> output[i].kind == AssetKind::Other
            },
            (SortField::Name, SortDirection::Asc) => {
                forall|p: int|
                    0 <= p <= encode_utf8(output[i].name@).len()
                        && p <= encode_utf8(output[j].name@).len()
                        && #[trigger] encode_utf8(output[i].name@).take(p) == encode_utf8(output[j].name@).take(p)
                        ==> !(p == encode_utf8(output[j].name@).len()
                            && p < encode_utf8(output[i].name@).len())
                            && !(p < encode_utf8(output[i].name@).len()
                        && p < encode_utf8(output[j].name@).len()
                            && encode_utf8(output[j].name@)[p] < encode_utf8(output[i].name@)[p])
            },
            (SortField::Name, SortDirection::Desc) => {
                forall|p: int|
                    0 <= p <= encode_utf8(output[j].name@).len()
                        && p <= encode_utf8(output[i].name@).len()
                        && #[trigger] encode_utf8(output[j].name@).take(p) == encode_utf8(output[i].name@).take(p)
                        ==> !(p == encode_utf8(output[i].name@).len()
                            && p < encode_utf8(output[j].name@).len())
                            && !(p < encode_utf8(output[j].name@).len()
                        && p < encode_utf8(output[i].name@).len()
                            && encode_utf8(output[i].name@)[p] < encode_utf8(output[j].name@)[p])
            },
        },
{
    let perm = choose|perm: Seq<int>| stably_reads(sorter.asset_order(), input, perm, output);
    assert((sorter.asset_order())(output[i], output[j]));
    first_key_that_differs_decides(sorter.keys@, m, output[i].traits(), output[j].traits());
}

/// Assets that agree in every key keep the order they had, and none is lost.
pub proof fn sorted_assets_that_agree_keep_their_order(
    sorter: Sorter,
    input: Seq<Asset>,
    output: Seq<Asset>,
    p: int,
    q: int,
)
    requires
        stable_sort(sorter.asset_order(), input, output),
        0 <= p < q < input.len(),
        forall|k: int|
            0 <= k < sorter.keys@.len() ==> match (#[trigger] sorter.keys@[k]).field {
                SortField::CreatedAt => input[p].created_at == input[q].created_at,
                SortField::Name => input[p].name@ == input[q].name@,
                SortField::Size => input[p].size_bytes == input[q].size_bytes,
                SortField::Kind => input[p].kind == input[q].kind,
            },
    ensures
        output.to_multiset() == input.to_multiset(),
        exists|a: int, b: int|
            0 <= a < b < output.len() && #[trigger] output[a] == input[p] && #[trigger] output[b]
                == input[q],
{
    crate::order::sorting_keeps_everything(sorter.asset_order(), input, output);
    alike_in_every_key(sorter.keys@, input[p].traits(), input[q].traits());
    alike_in_every_key(sorter.keys@, input[q].traits(), input[p].traits());
    crate::order::sorted_things_ascend(sorter.asset_order(), input, output, p, q);
}

pub(crate) proof fn alike_in_every_key(keys: Seq<SortSpec>, a: Traits, b: Traits)
    requires
        forall|k: int|
            0 <= k < keys.len() ==> match (#[trigger] keys[k]).field {
                SortField::CreatedAt => a.created_at == b.created_at,
                SortField::Name => a.name == b.name,
                SortField::Size => a.size_bytes == b.size_bytes,
                SortField::Kind => a.kind == b.kind,
            },
    ensures
        may_precede(keys, a, b),
    decreases keys.len(),
{
    if keys.len() > 0 {
        let rest = keys.drop_first();
        if keys[0].field == SortField::Name {
            equal_bytes_are_the_same(encode_utf8(a.name));
        }
        assert(key_rank(keys[0], a, b) == Rank::Same);
        assert forall|k: int| 0 <= k < rest.len() implies match (#[trigger] rest[k]).field {
                SortField::CreatedAt => a.created_at == b.created_at,
                SortField::Name => a.name == b.name,
                SortField::Size => a.size_bytes == b.size_bytes,
                SortField::Kind => a.kind == b.kind,
            } by {
            assert(rest[k] == keys[k + 1]);
        }
        alike_in_every_key(rest, a, b);
    }
}

} // verus!
