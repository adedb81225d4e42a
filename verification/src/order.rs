//! Stable sorting.
//!
//! A sort works on positions `0..n` of whatever is being sorted: it returns the order in
//! which the positions are to be read.

use vstd::prelude::*;

verus! {

/// Things at positions `0..count()` that are ordered by a total preorder.
pub trait Ranked {
    spec fn count(&self) -> nat;

    /// The thing at `i` may stand before the thing at `j`.
    spec fn le(&self, i: int, j: int) -> bool;

    proof fn total(&self, i: int, j: int)
        requires
            0 <= i < self.count(),
            0 <= j < self.count(),
        ensures
            self.le(i, j) || self.le(j, i),
    ;

    proof fn transitive(&self, i: int, j: int, k: int)
        requires
            0 <= i < self.count(),
            0 <= j < self.count(),
            0 <= k < self.count(),
            self.le(i, j),
            self.le(j, k),
        ensures
            self.le(i, k),
    ;

    fn leq(&self, i: usize, j: usize) -> (r: bool)
        requires
            i < self.count(),
            j < self.count(),
        ensures
            r == self.le(i as int, j as int),
    ;
}

/// In a stable order position `i` comes strictly before position `j`.
pub open spec fn before<R: Ranked>(ranked: &R, i: int, j: int) -> bool {
    ranked.le(i, j) && (ranked.le(j, i) ==> i < j)
}

/// `positions` holds every position of `from..to` once, in stable order.
pub open spec fn in_order<R: Ranked>(
    ranked: &R,
    positions: Seq<usize>,
    from: int,
    to: int,
) -> bool {
    &&& positions.len() == to - from
    &&& forall|a: int| 0 <= a < positions.len() ==> from <= #[trigger] positions[a] < to
    &&& forall|k: usize| from <= k < to ==> #[trigger] positions.contains(k)
    &&& forall|a: int, b: int|
        0 <= a < b < positions.len() ==> before(
            ranked,
            #[trigger] positions[a] as int,
            #[trigger] positions[b] as int,
        )
}

/// `perm` holds each of `0..n` once.
pub open spec fn is_permutation(perm: Seq<int>, n: nat) -> bool {
    &&& perm.len() == n
    &&& forall|a: int| 0 <= a < n ==> 0 <= #[trigger] perm[a] < n
    &&& forall|k: int| 0 <= k < n ==> #[trigger] perm.contains(k)
}

/// Reading `input` in the order `perm` gives `output`, which ascends by `le` and keeps
/// the order of things that `le` does not tell apart.
pub open spec fn stably_reads<T>(
    le: spec_fn(T, T) -> bool,
    input: Seq<T>,
    perm: Seq<int>,
    output: Seq<T>,
) -> bool {
    &&& is_permutation(perm, input.len())
    &&& output.len() == input.len()
    &&& forall|a: int| 0 <= a < output.len() ==> #[trigger] output[a] == input[perm[a]]
    &&& forall|a: int, b: int|
        0 <= a < b < output.len() ==> {
            &&& le(#[trigger] output[a], #[trigger] output[b])
            &&& le(output[b], output[a]) ==> perm[a] < perm[b]
        }
}

/// `output` is the stable sort of `input` by `le`.
pub open spec fn stable_sort<T>(
    le: spec_fn(T, T) -> bool,
    input: Seq<T>,
    output: Seq<T>,
) -> bool {
    exists|perm: Seq<int>| stably_reads(le, input, perm, output)
}

/// A stable sort has one result.
pub proof fn stable_sort_is_unique<T>(
    le: spec_fn(T, T) -> bool,
    input: Seq<T>,
    first: Seq<T>,
    second: Seq<T>,
)
    requires
        stable_sort(le, input, first),
        stable_sort(le, input, second),
    ensures
        first == second,
{
    let p = choose|perm: Seq<int>| stably_reads(le, input, perm, first);
    let q = choose|perm: Seq<int>| stably_reads(le, input, perm, second);
    assert forall|a: int| 0 <= a < input.len() implies p[a] == q[a] by {
        permutations_agree(le, input, p, first, q, second, a);
    }
    assert(first =~= second);
}

proof fn permutations_agree<T>(
    le: spec_fn(T, T) -> bool,
    input: Seq<T>,
    p: Seq<int>,
    first: Seq<T>,
    q: Seq<int>,
    second: Seq<T>,
    a: int,
)
    requires
        stably_reads(le, input, p, first),
        stably_reads(le, input, q, second),
        0 <= a < input.len(),
    ensures
        p[a] == q[a],
    decreases a,
{
    assert forall|b: int| 0 <= b < a implies p[b] == q[b] by {
        permutations_agree(le, input, p, first, q, second, b);
    }
    if p[a] != q[a] {
        assert(q.contains(p[a]));
        let j = choose|j: int| 0 <= j < q.len() && q[j] == p[a];
        assert(p.contains(q[a]));
        let i = choose|i: int| 0 <= i < p.len() && p[i] == q[a];
        reading_is_injective(le, input, p, first);
        reading_is_injective(le, input, q, second);
        assert(j > a) by {
            if j < a {
                assert(p[j] == p[a]);
            }
        }
        assert(i > a) by {
            if i < a {
                assert(q[i] == q[a]);
            }
        }
        assert(second[a] == input[q[a]] && second[j] == input[p[a]]);
        assert(first[a] == input[p[a]] && first[i] == input[q[a]]);
        assert(le(second[a], second[j]) && le(first[a], first[i]));
        assert(false);
    }
}

proof fn reading_is_injective<T>(
    le: spec_fn(T, T) -> bool,
    input: Seq<T>,
    perm: Seq<int>,
    output: Seq<T>,
)
    requires
        stably_reads(le, input, perm, output),
    ensures
        forall|a: int, b: int| 0 <= a < b < perm.len() ==> perm[a] != perm[b],
{
    assert forall|a: int, b: int| 0 <= a < b < perm.len() implies perm[a] != perm[b] by {
        if perm[a] == perm[b] {
            assert(output[a] == output[b]);
            assert(le(output[a], output[b]));
        }
    }
}

proof fn before_is_transitive<R: Ranked>(ranked: &R, i: int, j: int, k: int)
    requires
        0 <= i < ranked.count(),
        0 <= j < ranked.count(),
        0 <= k < ranked.count(),
        before(ranked, i, j),
        before(ranked, j, k),
    ensures
        before(ranked, i, k),
{
    ranked.transitive(i, j, k);
    if ranked.le(k, i) {
        ranked.transitive(k, i, j);
        ranked.transitive(j, k, i);
    }
}

fn merge<R: Ranked>(
    ranked: &R,
    left: Vec<usize>,
    right: Vec<usize>,
    Ghost(from): Ghost<int>,
    Ghost(mid): Ghost<int>,
    Ghost(to): Ghost<int>,
) -> (out: Vec<usize>)
    requires
        0 <= from <= mid <= to <= ranked.count(),
        in_order(ranked, left@, from, mid),
        in_order(ranked, right@, mid, to),
    ensures
        in_order(ranked, out@, from, to),
{
    let mut out: Vec<usize> = Vec::with_capacity(left.len());
    let mut i: usize = 0;
    let mut j: usize = 0;
    while i < left.len() || j < right.len()
        invariant
            0 <= from <= mid <= to <= ranked.count(),
            in_order(ranked, left@, from, mid),
            in_order(ranked, right@, mid, to),
            i <= left@.len(),
            j <= right@.len(),
            out@.len() == i + j,
            forall|a: int| 0 <= a < out@.len() ==> from <= #[trigger] out@[a] < to,
            forall|a: int| 0 <= a < i ==> out@.contains(#[trigger] left@[a]),
            forall|b: int| 0 <= b < j ==> out@.contains(#[trigger] right@[b]),
            forall|a: int, b: int|
                0 <= a < b < out@.len() ==> before(
                    ranked,
                    #[trigger] out@[a] as int,
                    #[trigger] out@[b] as int,
                ),
            forall|o: int, a: int|
                0 <= o < out@.len() && i <= a < left@.len() ==> before(
                    ranked,
                    #[trigger] out@[o] as int,
                    #[trigger] left@[a] as int,
                ),
            forall|o: int, b: int|
                0 <= o < out@.len() && j <= b < right@.len() ==> before(
                    ranked,
                    #[trigger] out@[o] as int,
                    #[trigger] right@[b] as int,
                ),
        decreases left@.len() - i + right@.len() - j,
    {
        let take_left = if j == right.len() {
            true
        } else if i == left.len() {
            false
        } else {
            ranked.leq(left[i], right[j])
        };
        let ghost was = out@;
        let next: usize = if take_left {
            left[i]
        } else {
            right[j]
        };
        proof {
            if i < left@.len() && j < right@.len() {
                ranked.total(left@[i as int] as int, right@[j as int] as int);
            }
            assert forall|a: int| i <= a < left@.len() && !take_left implies before(
                ranked,
                next as int,
                #[trigger] left@[a] as int,
            ) by {
                if a > i {
                    before_is_transitive(
                        ranked,
                        next as int,
                        left@[i as int] as int,
                        left@[a] as int,
                    );
                }
            }
            assert forall|b: int| j <= b < right@.len() && take_left implies before(
                ranked,
                next as int,
                #[trigger] right@[b] as int,
            ) by {
                if b > j {
                    before_is_transitive(
                        ranked,
                        next as int,
                        right@[j as int] as int,
                        right@[b] as int,
                    );
                }
            }
        }
        out.push(next);
        proof {
            assert(out@[was.len() as int] == next);
            assert forall|x: usize| was.contains(x) implies out@.contains(x) by {
                let k = choose|k: int| 0 <= k < was.len() && was[k] == x;
                assert(out@[k] == x);
            }
        }
        if take_left {
            i = i + 1;
        } else {
            j = j + 1;
        }
    }
    proof {
        assert forall|k: usize| from <= k < to implies #[trigger] out@.contains(k) by {
            if k < mid {
                assert(left@.contains(k));
            } else {
                assert(right@.contains(k));
            }
        }
    }
    out
}

fn sort_range<R: Ranked>(ranked: &R, from: usize, to: usize) -> (out: Vec<usize>)
    requires
        from <= to <= ranked.count(),
    ensures
        in_order(ranked, out@, from as int, to as int),
    decreases to - from,
{
    if to - from == 0 {
        Vec::new()
    } else if to - from == 1 {
        let mut out: Vec<usize> = Vec::new();
        out.push(from);
        assert(out@[0] == from);
        out
    } else {
        let mid: usize = from + (to - from) / 2;
        let left = sort_range(ranked, from, mid);
        let right = sort_range(ranked, mid, to);
        merge(ranked, left, right, Ghost(from as int), Ghost(mid as int), Ghost(to as int))
    }
}

/// The positions `0..n` in stable order.
pub fn sorted_positions<R: Ranked>(ranked: &R, n: usize) -> (out: Vec<usize>)
    requires
        n == ranked.count(),
    ensures
        in_order(ranked, out@, 0, n as int),
{
    sort_range(ranked, 0, n)
}

/// A sort keeps what it sorts: each thing is there as often as before.
pub proof fn sorting_keeps_everything<T>(
    le: spec_fn(T, T) -> bool,
    input: Seq<T>,
    output: Seq<T>,
)
    requires
        stable_sort(le, input, output),
    ensures
        output.len() == input.len(),
        output.to_multiset() == input.to_multiset(),
{
    let perm = choose|perm: Seq<int>| stably_reads(le, input, perm, output);
    reading_keeps_everything(input, perm, output);
}

proof fn reading_keeps_everything<T>(input: Seq<T>, perm: Seq<int>, output: Seq<T>)
    requires
        is_permutation(perm, input.len()),
        output.len() == input.len(),
        forall|a: int| 0 <= a < output.len() ==> #[trigger] output[a] == input[perm[a]],
    ensures
        output.to_multiset() == input.to_multiset(),
    decreases input.len(),
{
    broadcast use vstd::seq_lib::group_to_multiset_ensures;

    let n = input.len() as int;
    if n == 0 {
        assert(output =~= input);
    } else {
        assert(perm.contains(n - 1));
        let at = choose|at: int| 0 <= at < perm.len() && perm[at] == n - 1;
        let fewer = perm.remove(at);
        let rest = output.remove(at);
        let shorter = input.drop_last();
        permutation_is_injective(perm, input.len());
        assert forall|a: int| 0 <= a < n - 1 implies 0 <= #[trigger] fewer[a] < n - 1 by {
            let b = if a < at {
                a
            } else {
                a + 1
            };
            assert(fewer[a] == perm[b]);
            assert(perm[b] != perm[at]);
        }
        assert forall|k: int| 0 <= k < n - 1 implies #[trigger] fewer.contains(k) by {
            assert(perm.contains(k));
            let b = choose|b: int| 0 <= b < perm.len() && perm[b] == k;
            if b < at {
                assert(fewer[b] == k);
            } else {
                assert(fewer[b - 1] == k);
            }
        }
        assert forall|a: int| 0 <= a < rest.len() implies #[trigger] rest[a] == shorter[fewer[a]] by {
            let b = if a < at {
                a
            } else {
                a + 1
            };
            assert(rest[a] == output[b]);
            assert(fewer[a] == perm[b]);
            assert(0 <= fewer[a] < n - 1);
        }
        reading_keeps_everything(shorter, fewer, rest);
        assert(output[at] == input.last());
        assert(input =~= shorter.push(input.last()));
        assert(output =~= rest.insert(at, output[at]));
    }
}

pub(crate) proof fn permutation_is_injective(perm: Seq<int>, n: nat)
    requires
        is_permutation(perm, n),
    ensures
        forall|a: int, b: int| 0 <= a < b < n ==> perm[a] != perm[b],
{
    let all = vstd::set_lib::set_int_range(0, n as int);
    vstd::set_lib::lemma_int_range(0, n as int);
    assert(perm.to_set() =~= all) by {
        assert forall|k: int| all.contains(k) implies perm.to_set().contains(k) by {
            assert(perm.contains(k));
        }
    }
    perm.lemma_no_dup_set_cardinality();
}

/// What was sorted ascends, and of two things that are not told apart the one that stood
/// first still does.
pub proof fn sorted_things_ascend<T>(
    le: spec_fn(T, T) -> bool,
    input: Seq<T>,
    output: Seq<T>,
    p: int,
    q: int,
)
    requires
        stable_sort(le, input, output),
    ensures
        forall|a: int, b: int|
            0 <= a < b < output.len() ==> le(#[trigger] output[a], #[trigger] output[b]),
        0 <= p < q < input.len() && le(input[p], input[q]) && le(input[q], input[p])
            ==> exists|a: int, b: int|
            0 <= a < b < output.len() && #[trigger] output[a] == input[p] && #[trigger] output[b]
                == input[q],
{
    let perm = choose|perm: Seq<int>| stably_reads(le, input, perm, output);
    if 0 <= p < q < input.len() && le(input[p], input[q]) && le(input[q], input[p]) {
        assert(perm.contains(p) && perm.contains(q));
        let a = choose|a: int| 0 <= a < perm.len() && perm[a] == p;
        let b = choose|b: int| 0 <= b < perm.len() && perm[b] == q;
        assert(output[a] == input[p] && output[b] == input[q]);
        if b < a {
            assert(le(output[a], output[b]));
        }
    }
}

/// What is in order stays as it is.
pub proof fn sorting_what_is_sorted<T>(le: spec_fn(T, T) -> bool, input: Seq<T>, output: Seq<T>)
    requires
        stable_sort(le, input, output),
        forall|a: int, b: int|
            0 <= a < b < input.len() ==> le(#[trigger] input[a], #[trigger] input[b]),
    ensures
        output == input,
{
    let perm = Seq::new(input.len(), |i: int| i);
    assert forall|k: int| 0 <= k < input.len() implies #[trigger] perm.contains(k) by {
        assert(perm[k] == k);
    }
    assert(stably_reads(le, input, perm, input));
    assert(stable_sort(le, input, input));
    stable_sort_is_unique(le, input, input, output);
}

} // verus!
