//! Which category a file gets.

use asset_shelf::rules::{
    default_import_chain, CategoryContext, CategoryRule, GroupNameRule, ParentDirectoryRule,
    RuleChain,
};

#[test]
fn explicit_category_wins_over_rules() {
    let chain = default_import_chain();
    let ctx = CategoryContext { explicit: Some("手选"), group: Some("包声明") };
    assert_eq!(chain.resolve("分类A/图.png", &ctx), Some("手选".to_string()));
}

#[test]
fn group_name_beats_parent_directory() {
    let chain = default_import_chain();
    let ctx = CategoryContext { explicit: None, group: Some("表情组") };
    assert_eq!(chain.resolve("任意目录/贴纸.png", &ctx), Some("表情组".to_string()));
}

#[test]
fn parent_directory_is_the_fallback_rule() {
    let chain = default_import_chain();
    let ctx = CategoryContext::default();
    assert_eq!(chain.resolve("素材包/促销海报/主图.jpg", &ctx), Some("促销海报".to_string()));
}

#[test]
fn unresolved_falls_back_to_inbox_semantics() {
    let chain = RuleChain::new();
    assert_eq!(chain.resolve("root/a.png", &CategoryContext::default()), None);
}

#[test]
fn file_without_a_directory_has_no_category() {
    let chain = default_import_chain();
    assert_eq!(chain.resolve("a.png", &CategoryContext::default()), None);
    assert_eq!(chain.resolve("", &CategoryContext::default()), None);
}

#[test]
fn first_rule_that_answers_wins() {
    let ctx = CategoryContext { explicit: None, group: Some("g") };
    let mut chain = RuleChain::new();
    chain.push(Box::new(ParentDirectoryRule));
    chain.push(Box::new(GroupNameRule));
    assert_eq!(chain.resolve("d/a.png", &ctx), Some("d".to_string()));
    assert_eq!(chain.resolve("a.png", &ctx), Some("g".to_string()));
    assert_eq!(ParentDirectoryRule.name(), "parent-dir");
    assert_eq!(GroupNameRule.name(), "group-name");
}

#[test]
fn a_rule_that_is_added_later_overrides_nothing() {
    let ctx = CategoryContext { explicit: Some(""), group: Some("") };
    let mut chain = RuleChain::new();
    chain.push(Box::new(ParentDirectoryRule));
    let before = chain.resolve("d/a.png", &ctx);
    assert_eq!(chain.resolve("a.png", &ctx), None);
    chain.push(Box::new(GroupNameRule));
    assert_eq!(chain.resolve("d/a.png", &ctx), before);
    assert_eq!(chain.resolve("a.png", &ctx), None);
    let ctx = CategoryContext { explicit: None, group: Some("g") };
    assert_eq!(chain.resolve("a.png", &ctx), Some("g".to_string()));
}
