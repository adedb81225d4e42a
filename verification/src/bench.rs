//! The benchmark: which windows of the library are looked at, and what may stay in memory
//! afterwards.

use vstd::prelude::*;

use crate::digits::{decimal, push_number, push_text};
use crate::text::string_of;

verus! {

/// How far one window is from the next.
pub const BENCH_BROWSE_STEP: usize = 5_000;

/// How many assets a window shows.
pub const BENCH_WINDOW_COUNT: usize = 40;

/// How many windows there are.
pub open spec fn window_count(total: nat) -> nat {
    ((total + BENCH_BROWSE_STEP - 1) / (BENCH_BROWSE_STEP as int)) as nat
}

/// Where the windows begin.
pub open spec fn window_starts(total: nat) -> Seq<int> {
    Seq::new(window_count(total), |i: int| i * BENCH_BROWSE_STEP)
}

/// The windows that are looked at in turn: through the library, to its end, and back.
pub open spec fn browsed(total: nat) -> Seq<int> {
    if total == 0 {
        Seq::empty()
    } else {
        window_starts(total).push(
            if total > BENCH_WINDOW_COUNT {
                total - BENCH_WINDOW_COUNT
            } else {
                0
            },
        ).push(0)
    }
}

pub open spec fn numbers(list: Seq<usize>) -> Seq<int> {
    list.map_values(|n: usize| n as int)
}

fn starts(total: usize) -> (r: Vec<usize>)
    requires
        total <= usize::MAX - BENCH_BROWSE_STEP,
    ensures
        numbers(r@) == window_starts(total as nat),
{
    let mut firsts: Vec<usize> = Vec::new();
    let mut first: usize = 0;
    while first < total
        invariant
            total <= usize::MAX - BENCH_BROWSE_STEP,
            first == firsts@.len() * BENCH_BROWSE_STEP,
            firsts@.len() <= window_count(total as nat),
            forall|i: int| 0 <= i < firsts@.len()
                ==> #[trigger] firsts@[i] == i * BENCH_BROWSE_STEP,
        decreases total + BENCH_BROWSE_STEP - first,
    {
        firsts.push(first);
        first = first + BENCH_BROWSE_STEP;
    }
    assert(numbers(firsts@) =~= window_starts(total as nat));
    firsts
}

/// The windows that are looked at in turn.
pub fn browse_windows(total: usize) -> (r: Vec<usize>)
    requires
        total <= usize::MAX - BENCH_BROWSE_STEP,
    ensures
        numbers(r@) == browsed(total as nat),
        total == 0 ==> r@.len() == 0,
        total > 0 ==> {
            &&& r@.len() == (total + 4999) / 5000 + 2
            &&& forall|i: int|
                0 <= i < r@.len() - 2 ==> #[trigger] r@[i] == i * 5000 && r@[i] < total
            &&& r@[r@.len() - 2] == if total > 40 {
                total - 40
            } else {
                0
            }
            &&& r@[r@.len() - 1] == 0
        },
{
    let mut firsts = starts(total);
    if total > 0 {
        let ghost before = firsts@;
        firsts.push(total.saturating_sub(BENCH_WINDOW_COUNT));
        firsts.push(0);
        assert(numbers(firsts@) =~= browsed(total as nat));
        proof {
            assert(numbers(before).len() == before.len());
            assert forall|i: int| 0 <= i < firsts@.len() - 2 implies #[trigger] firsts@[i] == i
                * 5000 && firsts@[i] < total by {
                assert(numbers(before)[i] == before[i]);
                assert(firsts@[i] == before[i]);
            }
        }
    } else {
        assert(numbers(firsts@) =~= Seq::empty());
    }
    firsts
}

/// Where a window ends.
pub open spec fn window_end(first: int, total: int) -> int {
    if first + BENCH_WINDOW_COUNT < total {
        first + BENCH_WINDOW_COUNT
    } else {
        total
    }
}

/// The windows whose thumbnails are loaded: where each begins and ends.
pub fn sweep_windows(total: usize) -> (r: Vec<(usize, usize)>)
    requires
        total <= usize::MAX - BENCH_BROWSE_STEP,
    ensures
        r@.len() == window_count(total as nat),
        forall|i: int|
            0 <= i < r@.len() ==> (#[trigger] r@[i]).0 == i * BENCH_BROWSE_STEP && r@[i].1
                == window_end(r@[i].0 as int, total as int) && r@[i].0 < r@[i].1 <= total,
        r@.len() == (total + 4999) / 5000,
        forall|i: int|
            0 <= i < r@.len() ==> (#[trigger] r@[i]).0 == i * 5000 && r@[i].1 == if r@[i].0 + 40
                < total {
                r@[i].0 + 40
            } else {
                total as int
            },
{
    let firsts = starts(total);
    let mut windows: Vec<(usize, usize)> = Vec::new();
    let mut i: usize = 0;
    assert(numbers(firsts@).len() == firsts@.len());
    while i < firsts.len()
        invariant
            i <= firsts@.len(),
            total <= usize::MAX - BENCH_BROWSE_STEP,
            numbers(firsts@) == window_starts(total as nat),
            firsts@.len() == window_count(total as nat),
            windows@.len() == i,
            forall|k: int|
                0 <= k < i ==> (#[trigger] windows@[k]).0 == k * BENCH_BROWSE_STEP && windows@[k].1
                    == window_end(windows@[k].0 as int, total as int) && windows@[k].0
                    < windows@[k].1 <= total,
        decreases firsts@.len() - i,
    {
        let first: usize = firsts[i];
        assert(numbers(firsts@)[i as int] == first);
        assert(first == i * BENCH_BROWSE_STEP);
        assert(first < total);
        let end: usize = if first + BENCH_WINDOW_COUNT < total {
            first + BENCH_WINDOW_COUNT
        } else {
            total
        };
        windows.push((first, end));
        i = i + 1;
    }
    windows
}

/// Whether what stays in memory is no more than one window.
pub fn residency_holds(cached: usize) -> (r: bool)
    ensures
        r == (cached <= BENCH_WINDOW_COUNT),
        r == (cached <= 40),
{
    cached <= BENCH_WINDOW_COUNT
}

/// What is said where too much stays in memory.
pub fn residency_failure(cached: usize) -> (r: String)
    ensures
        r@ == "--bench: D43 驻留守卫红：整库扫窗后缓存仍有 "@ + decimal(cached as nat) + " 条（> 单窗 "@
            + decimal(BENCH_WINDOW_COUNT as nat) + "）"@,
{
    let mut out: Vec<char> = Vec::new();
    push_text(&mut out, "--bench: D43 驻留守卫红：整库扫窗后缓存仍有 ");
    push_number(&mut out, cached as u64);
    push_text(&mut out, " 条（> 单窗 ");
    push_number(&mut out, BENCH_WINDOW_COUNT as u64);
    push_text(&mut out, "）");
    assert(out@ =~= "--bench: D43 驻留守卫红：整库扫窗后缓存仍有 "@ + decimal(cached as nat) + " 条（> 单窗 "@
        + decimal(BENCH_WINDOW_COUNT as nat) + "）"@);
    string_of(out)
}

/// What a benchmark found.
#[derive(Debug, Clone, Copy, PartialEq, Eq, Structural)]
pub struct BenchReport {
    pub total: u64,
    pub browse_ms: u64,
    pub hold_ms: u64,
    pub resident_thumbs: u64,
    pub thumb_cache_entries: u64,
}

impl BenchReport {
    /// The report as a line of JSON.
    pub open spec fn json(&self) -> Seq<char> {
        "{\"browse_done\":true,\"total\":"@ + decimal(self.total as nat) + ",\"browse_ms\":"@
            + decimal(self.browse_ms as nat) + ",\"hold_ms\":"@ + decimal(self.hold_ms as nat)
            + ",\"resident_thumbs\":"@ + decimal(self.resident_thumbs as nat)
            + ",\"thumb_cache_entries\":"@ + decimal(self.thumb_cache_entries as nat) + "}"@
    }

    /// The report as a line of JSON.
    pub fn line(&self) -> (r: String)
        ensures
            r@ == self.json(),
            r@ == "{\"browse_done\":true,\"total\":"@ + decimal(self.total as nat)
                + ",\"browse_ms\":"@ + decimal(self.browse_ms as nat) + ",\"hold_ms\":"@ + decimal(
                self.hold_ms as nat,
            ) + ",\"resident_thumbs\":"@ + decimal(self.resident_thumbs as nat)
                + ",\"thumb_cache_entries\":"@ + decimal(self.thumb_cache_entries as nat) + "}"@,
    {
        let mut out: Vec<char> = Vec::new();
        push_text(&mut out, "{\"browse_done\":true,\"total\":");
        push_number(&mut out, self.total);
        push_text(&mut out, ",\"browse_ms\":");
        push_number(&mut out, self.browse_ms);
        push_text(&mut out, ",\"hold_ms\":");
        push_number(&mut out, self.hold_ms);
        push_text(&mut out, ",\"resident_thumbs\":");
        push_number(&mut out, self.resident_thumbs);
        push_text(&mut out, ",\"thumb_cache_entries\":");
        push_number(&mut out, self.thumb_cache_entries);
        push_text(&mut out, "}");
        assert(out@ =~= self.json());
        string_of(out)
    }
}

} // verus!
