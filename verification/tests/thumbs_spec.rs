//! The cache of thumbnails, and the passes that fill it.

use std::collections::HashSet;

use asset_shelf::bench::{
    browse_windows, residency_failure, residency_holds, sweep_windows, BenchReport,
    BENCH_WINDOW_COUNT,
};
use asset_shelf::domain::AssetKind;
use asset_shelf::thumbs::{
    PassStep, ThumbCache, TileItem, WindowBuild, WindowPass, EMPTY_IMAGE, THUMB_LOAD_BUDGET,
};

#[test]
fn capacity_evicts_least_recently_used() {
    let mut cache = ThumbCache::new(2);
    cache.put(1, EMPTY_IMAGE);
    cache.put(2, EMPTY_IMAGE);
    assert!(cache.get(1).is_some());
    cache.put(3, EMPTY_IMAGE);
    assert!(cache.get(1).is_some());
    assert!(cache.get(2).is_none());
    assert!(cache.get(3).is_some());
    assert_eq!(cache.len(), 2);
}

#[test]
fn retain_window_drops_everything_outside_window() {
    let mut cache = ThumbCache::new(16);
    for id in 0..8u32 {
        cache.put(id, EMPTY_IMAGE);
    }
    let window: HashSet<u32> = [2u32, 3, 4].into_iter().collect();
    cache.retain_window(&window);
    for id in 0..8u32 {
        assert_eq!(cache.get(id).is_some(), window.contains(&id), "id={id}");
    }
    assert_eq!(cache.len(), 3);
}

#[test]
fn retain_window_keeps_everything_when_window_covers_all() {
    let mut cache = ThumbCache::new(16);
    for id in 0..8u32 {
        cache.put(id, EMPTY_IMAGE);
    }
    let window: HashSet<u32> = (0..8u32).collect();
    cache.retain_window(&window);
    assert_eq!(cache.len(), 8);
}

#[test]
fn negative_entry_behaves_like_a_resident_thumb() {
    let mut cache = ThumbCache::new(8);
    cache.put(7, EMPTY_IMAGE);
    assert_eq!(cache.len(), 1);
    assert!(cache.get(7).is_some());
}

#[test]
fn entries_stand_in_the_order_of_their_use() {
    let mut cache = ThumbCache::new(0);
    cache.put(1, 10);
    cache.put(2, 20);
    assert_eq!(cache.images(), vec![(2, 20)]);
    let mut cache = ThumbCache::new(3);
    cache.put(1, 10);
    cache.put(2, 20);
    cache.put(3, 30);
    assert_eq!(cache.get(1), Some(10));
    cache.put(2, 21);
    assert_eq!(cache.images(), vec![(2, 21), (1, 10), (3, 30)]);
    cache.retain_window(&[1u32, 2].into_iter().collect());
    assert_eq!(cache.images(), vec![(2, 21), (1, 10)]);
    cache.clear();
    assert_eq!(cache.len(), 0);
    assert_eq!(cache.get(2), None);
}

fn items(ids: std::ops::Range<u32>) -> Vec<TileItem> {
    ids.map(|id| TileItem {
        id,
        kind: AssetKind::Image,
        name: if id % 2 == 0 { format!("n{id}") } else { String::new() },
        preview: String::new(),
    })
    .collect()
}

/// Runs a pass. The image of an asset is its number plus a hundred; every tenth has none.
fn run(cache: ThumbCache, ids: std::ops::Range<u32>) -> (WindowBuild, ThumbCache, Vec<u32>) {
    let mut pass = WindowPass::start(items(ids), cache);
    let mut loads = Vec::new();
    loop {
        match pass.next() {
            PassStep::Placed => {}
            PassStep::Load { id } => {
                loads.push(id);
                pass.loaded(if id % 10 == 0 { None } else { Some(id as u64 + 100) });
            }
            PassStep::Finished => break,
        }
    }
    let (build, cache) = pass.finish();
    (build, cache, loads)
}

#[test]
fn passes_load_a_few_images_until_none_is_missing() {
    let (build, cache, loads) = run(ThumbCache::new(64), 0..20);
    assert_eq!(loads, vec![0, 1, 2, 3, 4, 5]);
    assert_eq!(build.missing, 14);
    assert_eq!(build.updates, vec![1, 2, 3, 4, 5]);
    assert_eq!(build.rows.len(), 20);
    assert_eq!(build.rows[3].thumb, 103);
    assert!(!build.rows[0].pending && build.rows[0].thumb == EMPTY_IMAGE);
    assert!(build.rows[6].pending && build.rows[6].thumb == EMPTY_IMAGE);
    assert_eq!(cache.len(), THUMB_LOAD_BUDGET);

    let (build, cache, loads) = run(cache, 0..20);
    assert_eq!(loads, vec![6, 7, 8, 9, 10, 11]);
    assert_eq!(build.missing, 8);
    let (build, cache, _) = run(cache, 0..20);
    assert_eq!(build.missing, 2);
    let (build, cache, loads) = run(cache, 0..20);
    assert_eq!(loads, vec![18, 19]);
    assert_eq!(build.missing, 0);
    assert_eq!(build.updates, vec![18, 19]);
    let (build, cache, loads) = run(cache, 0..20);
    assert!(loads.is_empty());
    assert_eq!((build.missing, build.updates.len()), (0, 0));
    assert_eq!(cache.len(), 20);
}

#[test]
fn another_window_forgets_the_first() {
    let (_, cache, _) = run(ThumbCache::new(64), 0..4);
    let (build, cache, loads) = run(cache, 2..6);
    assert_eq!(loads, vec![4, 5]);
    assert_eq!(build.missing, 0);
    let mut kept: Vec<u32> = cache.images().iter().map(|(id, _)| *id).collect();
    kept.sort();
    assert_eq!(kept, vec![2, 3, 4, 5]);
}

#[test]
fn rows_show_what_they_are_about() {
    let (build, _, _) = run(ThumbCache::new(64), 8..10);
    assert_eq!(build.rows[0].label, "n8");
    assert_eq!(build.rows[0].asset_id, 8);
    assert_eq!(build.rows[0].color, 0xFF4C6EF5);
    assert_eq!(build.rows[0].kind, 0);
    assert_eq!(build.rows[1].label, "#9");
    assert_eq!(build.rows[1].color, 0xFFF76707);
}

#[test]
fn benchmark_looks_through_the_library_and_back() {
    assert_eq!(browse_windows(0), Vec::<usize>::new());
    assert_eq!(browse_windows(10), vec![0, 0, 0]);
    assert_eq!(browse_windows(10_001), vec![0, 5_000, 10_000, 9_961, 0]);
    assert_eq!(sweep_windows(10_001), vec![(0, 40), (5_000, 5_040), (10_000, 10_001)]);
    assert_eq!(sweep_windows(0), vec![]);
}

#[test]
fn sweeping_leaves_one_window() {
    let mut cache = ThumbCache::new(256);
    for (first, end) in sweep_windows(17_000) {
        let window: HashSet<u32> = (first as u32..end as u32).collect();
        for &id in &window {
            if cache.get(id).is_none() {
                cache.put(id, EMPTY_IMAGE);
            }
        }
        cache.retain_window(&window);
        assert!(residency_holds(cache.len()));
    }
    assert_eq!(cache.len(), BENCH_WINDOW_COUNT);
    assert!(!residency_holds(41));
    assert!(residency_failure(41).contains("41"));
}

#[test]
fn benchmark_reports_a_line_of_json() {
    let report = BenchReport {
        total: 7,
        browse_ms: 12,
        hold_ms: 8000,
        resident_thumbs: 3,
        thumb_cache_entries: 2,
    };
    assert_eq!(
        report.line(),
        "{\"browse_done\":true,\"total\":7,\"browse_ms\":12,\"hold_ms\":8000,\"resident_thumbs\":3,\"thumb_cache_entries\":2}"
    );
}

#[test]
fn passes_close_gaps_beside_other_images_where_there_is_room() {
    let mut cache = ThumbCache::new(12);
    cache.put(1, 101);
    cache.put(90, 190);
    cache.put(91, 191);
    let (build, cache, loads) = run(cache, 0..10);
    assert_eq!(loads, vec![0, 2, 3, 4, 5, 6]);
    assert_eq!(build.missing, 3);
    let (build, cache, loads) = run(cache, 0..10);
    assert_eq!(loads, vec![7, 8, 9]);
    assert_eq!((build.missing, cache.len()), (0, 10));

    let mut full = ThumbCache::new(3);
    full.put(91, 191);
    full.put(90, 190);
    full.put(1, 101);
    let (build, cache, loads) = run(full, 0..3);
    assert_eq!(loads, vec![0, 2]);
    assert_eq!((build.missing, cache.len()), (0, 3));

    let mut crowded = ThumbCache::new(2);
    crowded.put(2, 102);
    crowded.put(90, 190);
    let (_, _, loads) = run(crowded, 1..3);
    assert_eq!(loads, vec![1, 2]);
}
