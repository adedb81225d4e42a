//! Sorting assets, and matching names.

use asset_shelf::domain::{
    Asset, AssetId, AssetKind, CategoryId, Filter, SmartFolder, SortDirection, SortField, SortSpec,
    Sorter, TagId,
};
use asset_shelf::text::{contains_case_fold, fold_lower};

fn asset(id: u32, name: &str, created_at: i64) -> Asset {
    Asset {
        id: AssetId(id),
        name: name.to_string(),
        category: None,
        tags: vec![],
        created_at,
        size_bytes: None,
        kind: AssetKind::Other,
    }
}

fn sorter(keys: &[(SortField, SortDirection)]) -> Sorter {
    Sorter {
        keys: keys
            .iter()
            .map(|(field, direction)| SortSpec { field: *field, direction: *direction })
            .collect(),
    }
}

fn ids(items: &[Asset]) -> Vec<u32> {
    items.iter().map(|a| a.id.0).collect()
}

#[test]
fn sorter_recency_then_name_is_stable_multisort() {
    let mut items = vec![
        asset(1, "beta", 100),
        asset(2, "dup", 100),
        asset(3, "alpha", 100),
        asset(4, "zeta", 50),
        asset(5, "dup", 100),
        asset(6, "yak", 50),
    ];
    let keys = sorter(&[
        (SortField::CreatedAt, SortDirection::Desc),
        (SortField::Name, SortDirection::Asc),
    ]);
    keys.sort_assets(&mut items);
    assert_eq!(ids(&items), vec![3, 1, 2, 5, 6, 4]);
}

#[test]
fn sorter_by_size_puts_unknown_last_in_both_directions() {
    let mut items = vec![asset(1, "a", 0), asset(2, "b", 0), asset(3, "c", 0)];
    items[0].size_bytes = Some(500);
    items[1].size_bytes = Some(1000);
    sorter(&[(SortField::Size, SortDirection::Asc)]).sort_assets(&mut items);
    assert_eq!(ids(&items), vec![1, 2, 3]);
    sorter(&[(SortField::Size, SortDirection::Desc)]).sort_assets(&mut items);
    assert_eq!(ids(&items), vec![2, 1, 3]);
}

#[test]
fn sorter_by_kind_orders_image_video_text_other() {
    let mut items = vec![asset(1, "x", 0), asset(2, "y", 0), asset(3, "z", 0), asset(4, "w", 0)];
    items[0].kind = AssetKind::Text;
    items[1].kind = AssetKind::Video;
    items[2].kind = AssetKind::Image;
    items[3].kind = AssetKind::Other;
    sorter(&[(SortField::Kind, SortDirection::Asc)]).sort_assets(&mut items);
    let kinds: Vec<AssetKind> = items.iter().map(|a| a.kind).collect();
    assert_eq!(
        kinds,
        vec![AssetKind::Image, AssetKind::Video, AssetKind::Text, AssetKind::Other]
    );
}

#[test]
fn sorting_without_keys_keeps_the_order() {
    let mut items = vec![asset(5, "z", 1), asset(2, "a", 3), asset(9, "m", 2)];
    Sorter::default().sort_assets(&mut items);
    assert_eq!(ids(&items), vec![5, 2, 9]);
}

#[test]
fn names_sort_by_code_point_in_either_direction() {
    let mut items = vec![asset(1, "b", 0), asset(2, "B", 0), asset(3, "甲", 0), asset(4, "", 0)];
    sorter(&[(SortField::Name, SortDirection::Asc)]).sort_assets(&mut items);
    assert_eq!(ids(&items), vec![4, 2, 1, 3]);
    sorter(&[(SortField::Name, SortDirection::Desc)]).sort_assets(&mut items);
    assert_eq!(ids(&items), vec![3, 1, 2, 4]);
}

#[test]
fn sorting_agrees_with_the_standard_sort_on_many_assets() {
    let mut items: Vec<Asset> = (0..300u32)
        .map(|i| asset(i, &format!("n{}", (i * 7919) % 13), ((i * 31) % 17) as i64))
        .collect();
    let mut expected = items.clone();
    expected.sort_by(|a, b| b.created_at.cmp(&a.created_at).then(a.name.cmp(&b.name)));
    sorter(&[
        (SortField::CreatedAt, SortDirection::Desc),
        (SortField::Name, SortDirection::Asc),
    ])
    .sort_assets(&mut items);
    assert_eq!(ids(&items), ids(&expected));
}

#[test]
fn folding_finds_text_whatever_its_case() {
    let mut ring = Vec::new();
    let needle = fold_lower("  PnG ");
    assert_eq!(needle, vec!['p', 'n', 'g']);
    assert!(contains_case_fold("photo.PNG", &needle, &mut ring));
    assert!(!contains_case_fold("photo.PN", &needle, &mut ring));
    assert!(contains_case_fold("anything", &[], &mut ring));
    let dotted = fold_lower("İ");
    assert_eq!(dotted, vec!['i', '\u{307}']);
    assert!(contains_case_fold("xİy", &dotted, &mut ring));
}

#[test]
fn smart_folders_keep_their_filter() {
    let folder = SmartFolder {
        name: "近期促销图".to_string(),
        filter: Filter::AllOf(vec![
            Filter::InCategory(CategoryId(7)),
            Filter::Not(Box::new(Filter::HasTag(TagId(2)))),
        ]),
        sorter: sorter(&[(SortField::Name, SortDirection::Asc)]),
    };
    assert_eq!(folder.clone(), folder);
}
