//! Searching by name, and ids that a full-text search has found.

use asset_shelf::domain::{Asset, AssetId, AssetKind, CategoryId, Filter};
use asset_shelf::index::FacetIndex;

fn row(id: u32, name: &str, category: Option<CategoryId>) -> Asset {
    Asset {
        id: AssetId(id),
        name: name.to_string(),
        category,
        tags: vec![],
        created_at: id as i64,
        size_bytes: Some(1),
        kind: AssetKind::Image,
    }
}

fn load() -> FacetIndex {
    let mut index = FacetIndex::new();
    index.insert(&row(0, "促销海报.png", None));
    index.insert(&row(1, "Promo_Head.jpg", None));
    index.insert(&row(2, "İstanbul ırmak.png", None));
    index
}

#[test]
fn name_in_filter_returns_given_ids_intersected_with_live_set() {
    let mut index = load();
    let hit = index.evaluate(&Filter::NameIn(vec![0, 2, 77]));
    assert!(hit.contains(0) && hit.contains(2));
    assert!(!hit.contains(77));

    assert!(index.mark_deleted(AssetId(0)));
    let hit = index.evaluate(&Filter::NameIn(vec![0, 1, 2]));
    assert!(!hit.contains(0));
    assert!(hit.contains(1) && hit.contains(2));
}

#[test]
fn search_names_unicode_case_folding() {
    let index = load();
    assert_eq!(
        index.search_names("促销"),
        index.evaluate(&Filter::NameContains("促销".into()))
    );
    assert!(index.search_names("促销").contains(0));
    assert!(index.search_names("promo_head").contains(1));
    assert!(index.search_names("i̇stanbul").contains(2));
    assert!(index.search_names("ırmak").contains(2));
}

#[test]
fn name_search_spec_name_contains_filter_matches_case_insensitive_substring() {
    let index = load();
    let hit = index.evaluate(&Filter::NameContains("promo".into()));
    assert!(hit.contains(1));
}

#[test]
fn name_in_composes_with_category_clause() {
    let mut index = load();
    index.insert(&row(1, "Promo_Head.jpg", Some(CategoryId(5))));
    let hit = index.evaluate(&Filter::AllOf(vec![
        Filter::InCategory(CategoryId(5)),
        Filter::NameIn(vec![0, 1, 2]),
    ]));
    assert!(hit.contains(1));
    assert!(!hit.contains(0) && !hit.contains(2));
}

#[test]
fn conjunction_of_nothing_is_everything_and_disjunction_nothing() {
    let index = load();
    assert_eq!(index.evaluate(&Filter::AllOf(vec![])).len(), 3);
    assert!(index.evaluate(&Filter::AnyOf(vec![])).is_empty());
}

#[test]
fn negation_splits_the_live_rows() {
    let mut index = load();
    index.mark_deleted(AssetId(2));
    let named = Filter::NameContains("promo".into());
    let inside = index.evaluate(&named);
    let outside = index.evaluate(&Filter::Not(Box::new(named)));
    assert!((&inside & &outside).is_empty());
    assert_eq!(&(&inside | &outside), index.all_ids());
}

#[test]
fn inserting_as_deleted_takes_tags_out_of_the_counts() {
    let mut index = FacetIndex::new();
    let mut tagged = row(3, "tagged", None);
    tagged.tags = vec![asset_shelf::domain::TagId(4)];
    index.insert(&tagged);
    assert_eq!(index.tag_counts().get(&4), Some(&1));
    index.insert_as_deleted(&tagged);
    assert_eq!(index.tag_counts().get(&4), None);
}

#[test]
fn empty_index_has_nothing() {
    let index = FacetIndex::default();
    assert!(index.is_empty());
    assert_eq!(index.len(), 0);
    assert!(index.asset(0).is_none());
    assert!(index.name(0).is_none());
    assert_eq!(index.kind(0), AssetKind::Other);
}
