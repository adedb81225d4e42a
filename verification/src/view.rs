//! What the window says: counts, categories, the selection, the filter that is on, and the
//! properties of an asset.

use vstd::prelude::*;

use crate::calendar::{civil_from_days, day_number, days_count_from_1970, valid_date};
use crate::digits::{
    decimal, padded, push_number, push_padded, push_signed, push_text, signed_decimal,
};
use crate::domain::{CategoryId, Filter};
use crate::fields::texts;
use crate::text::{same_text, string_of, trim, trimmed};
use crate::ui_enums::{SearchScope, TargetNoticeTone, BAR_HIDDEN, BAR_MULTI, BAR_TRASH};

verus! {

/// The number of the trash among the categories.
pub const TRASH_CATEGORY: i32 = -3;

/// The number of all assets among the categories.
pub const ALL_CATEGORIES: i32 = -1;

/// The number that no category has.
pub const NO_CATEGORY: i32 = -2;

/// What is said of the number of assets.
pub fn total_text(total: usize) -> (r: String)
    ensures
        r@ == "共 "@ + decimal(total as nat) + " 项"@,
{
    let mut out: Vec<char> = Vec::new();
    push_text(&mut out, "共 ");
    push_number(&mut out, total as u64);
    push_text(&mut out, " 项");
    assert(out@ =~= "共 "@ + decimal(total as nat) + " 项"@);
    string_of(out)
}

/// What is said where there is nothing to see.
#[derive(Debug, Clone, PartialEq, Eq)]
pub struct EmptyText {
    pub title: String,
    pub hint: String,
}

/// Why there is nothing to see, and what to do: nothing is said where there is something.
pub open spec fn empty_words(
    total: nat,
    query: Seq<char>,
    has_library: bool,
    in_trash: bool,
) -> (Seq<char>, Seq<char>) {
    if total > 0 {
        (""@, ""@)
    } else if in_trash {
        ("回收站是空的"@, "删除的素材会出现在这里，可恢复或彻底删除"@)
    } else if trimmed(query).len() > 0 {
        ("没有匹配的素材"@, "换个关键词，或清空搜索框回到全部"@)
    } else if !has_library {
        ("素材库还是空的"@, "点左下角「导入素材…」把图片/视频加进来"@)
    } else {
        ("这个分类下还没有素材"@, "换个分类，或继续导入素材"@)
    }
}

/// What is said where there is nothing to see.
pub fn empty_text(total: usize, query: &str, has_library: bool, in_trash: bool) -> (r: EmptyText)
    ensures
        (r.title@, r.hint@) == empty_words(total as nat, query@, has_library, in_trash),
        total > 0 ==> r.title@ == ""@ && r.hint@ == ""@,
        total == 0 && in_trash ==> r.title@ == "回收站是空的"@,
        total == 0 && !in_trash && trimmed(query@).len() > 0 ==> r.title@ == "没有匹配的素材"@,
        total == 0 && !in_trash && trimmed(query@).len() == 0 && !has_library ==> r.title@
            == "素材库还是空的"@,
        total == 0 && !in_trash && trimmed(query@).len() == 0 && has_library ==> r.title@
            == "这个分类下还没有素材"@,
{
    let (title, hint) = if total > 0 {
        ("", "")
    } else if in_trash {
        ("回收站是空的", "删除的素材会出现在这里，可恢复或彻底删除")
    } else if trim(query).unicode_len() > 0 {
        ("没有匹配的素材", "换个关键词，或清空搜索框回到全部")
    } else if !has_library {
        ("素材库还是空的", "点左下角「导入素材…」把图片/视频加进来")
    } else {
        ("这个分类下还没有素材", "换个分类，或继续导入素材")
    };
    EmptyText { title: title.to_owned(), hint: hint.to_owned() }
}

/// The categories of a library that is not there.
pub fn default_categories() -> (r: Vec<String>)
    ensures
        texts(r@) == seq!["全部"@, "分类0"@, "分类1"@, "分类2"@, "分类3"@, "分类4"@],
{
    let mut names: Vec<String> = Vec::new();
    names.push("全部".to_owned());
    names.push("分类0".to_owned());
    names.push("分类1".to_owned());
    names.push("分类2".to_owned());
    names.push("分类3".to_owned());
    names.push("分类4".to_owned());
    assert(texts(names@) =~= seq!["全部"@, "分类0"@, "分类1"@, "分类2"@, "分类3"@, "分类4"@]);
    names
}

/// The categories as they are listed: all assets first.
pub fn listed_categories(names: &Vec<String>) -> (r: Vec<String>)
    ensures
        texts(r@) == seq!["全部"@] + texts(names@),
{
    let mut all: Vec<String> = Vec::new();
    all.push("全部".to_owned());
    let mut i: usize = 0;
    assert(texts(all@) =~= seq!["全部"@] + texts(names@).take(0));
    while i < names.len()
        invariant
            i <= names@.len(),
            texts(all@) == seq!["全部"@] + texts(names@).take(i as int),
        decreases names@.len() - i,
    {
        let ghost before = all@;
        all.push(names[i].clone());
        assert(texts(all@) =~= texts(before).push(names@[i as int]@));
        i = i + 1;
        assert(texts(all@) =~= seq!["全部"@] + texts(names@).take(i as int));
    }
    assert(texts(names@).take(i as int) =~= texts(names@));
    all
}

/// The sum of counts.
pub open spec fn sum(counts: Seq<i32>) -> int
    decreases counts.len(),
{
    if counts.len() == 0 {
        0
    } else {
        sum(counts.drop_last()) + counts.last()
    }
}

/// No sum of the first few counts leaves the range of a count.
pub open spec fn sums_fit(counts: Seq<i32>) -> bool {
    forall|n: int|
        0 <= n <= counts.len() ==> i32::MIN <= #[trigger] sum(counts.take(n)) <= i32::MAX
}

/// The counts as they are listed: that of all assets first.
pub fn listed_counts(counts: &Vec<i32>) -> (r: Vec<i32>)
    requires
        sums_fit(counts@),
    ensures
        r@ == seq![sum(counts@) as i32] + counts@,
        r@[0] == sum(counts@),
{
    let mut total: i32 = 0;
    let mut i: usize = 0;
    while i < counts.len()
        invariant
            i <= counts@.len(),
            sums_fit(counts@),
            total == sum(counts@.take(i as int)),
        decreases counts@.len() - i,
    {
        assert(counts@.take(i + 1).drop_last() =~= counts@.take(i as int));
        assert(sum(counts@.take(i + 1)) == total + counts@[i as int]);
        total = total + counts[i];
        i = i + 1;
    }
    assert(counts@.take(i as int) =~= counts@);
    let mut all: Vec<i32> = Vec::new();
    all.push(total);
    let mut more = counts.clone();
    assert(more@ =~= counts@);
    all.append(&mut more);
    all
}

/// The count of the first facet with a name; none where there is none.
pub open spec fn count_of(facets: Seq<(String, i32)>, name: Seq<char>, i: int) -> i32
    decreases facets.len() - i,
{
    if i >= facets.len() {
        0
    } else if facets[i].0@ == name {
        facets[i].1
    } else {
        count_of(facets, name, i + 1)
    }
}

/// The counts of categories in the order of their names.
pub fn category_counts_for(names: &Vec<String>, facets: &Vec<(String, i32)>) -> (r: Vec<i32>)
    ensures
        r@.len() == names@.len(),
        forall|i: int|
            0 <= i < names@.len() ==> #[trigger] r@[i] == count_of(facets@, names@[i]@, 0),
        forall|i: int, j: int|
            0 <= i < names@.len() && 0 <= j < facets@.len() && (#[trigger] facets@[j]).0@
                == (#[trigger] names@[i])@ && (forall|k: int|
                0 <= k < j ==> (#[trigger] facets@[k]).0@ != names@[i]@) ==> r@[i] == facets@[j].1,
        forall|i: int|
            0 <= i < names@.len() && (forall|k: int|
                0 <= k < facets@.len() ==> (#[trigger] facets@[k]).0@ != names@[i]@)
                    ==> #[trigger] r@[i]
                == 0,
{
    proof {
        assert forall|i: int, j: int|
            0 <= i < names@.len() && 0 <= j < facets@.len() && (#[trigger] facets@[j]).0@
                == (#[trigger] names@[i])@ && (forall|k: int|
                0 <= k < j ==> (#[trigger] facets@[k]).0@ != names@[i]@) implies count_of(
            facets@,
            names@[i]@,
            0,
        ) == facets@[j].1 by {
            first_facet_counts(facets@, names@[i]@, 0, j);
        }
        assert forall|i: int|
            0 <= i < names@.len() && (forall|k: int|
                0 <= k < facets@.len()
                    ==> (#[trigger] facets@[k]).0@ != names@[i]@) implies count_of(
            facets@,
            (#[trigger] names@[i])@,
            0,
        ) == 0 by {
            first_facet_counts(facets@, names@[i]@, 0, facets@.len() as int);
        }
    }
    let mut counts: Vec<i32> = Vec::new();
    let mut i: usize = 0;
    while i < names.len()
        invariant
            i <= names@.len(),
            counts@.len() == i,
            forall|k: int|
                0 <= k < i ==> #[trigger] counts@[k] == count_of(facets@, names@[k]@, 0),
        decreases names@.len() - i,
    {
        let name = names[i].as_str();
        let mut j: usize = 0;
        while j < facets.len() && !same_text(facets[j].0.as_str(), name)
            invariant
                j <= facets@.len(),
                count_of(facets@, name@, 0) == count_of(facets@, name@, j as int),
            decreases facets@.len() - j,
        {
            j = j + 1;
        }
        let count: i32 = if j < facets.len() {
            facets[j].1
        } else {
            0
        };
        counts.push(count);
        i = i + 1;
    }
    counts
}

/// Which bar for the selection is shown: in the trash always, else while many are chosen.
pub fn selection_bar(in_trash: bool, multi: bool) -> (r: i32)
    ensures
        in_trash ==> r == 2,
        !in_trash && multi ==> r == 1,
        !in_trash && !multi ==> r == 0,
        r == if in_trash {
            BAR_TRASH
        } else if multi {
            BAR_MULTI
        } else {
            BAR_HIDDEN
        },
{
    if in_trash {
        BAR_TRASH
    } else if multi {
        BAR_MULTI
    } else {
        BAR_HIDDEN
    }
}

/// What the bar says.
pub open spec fn selection_words(in_trash: bool, count: nat) -> Seq<char> {
    if in_trash {
        if count > 0 {
            "回收站 · 已选 "@ + decimal(count) + " 项"@
        } else {
            "回收站"@
        }
    } else if count > 0 {
        "已选 "@ + decimal(count) + " 项"@
    } else {
        "点击素材选择，Esc 退出"@
    }
}

/// What the bar for the selection says.
pub fn selection_text(in_trash: bool, count: usize) -> (r: String)
    ensures
        r@ == selection_words(in_trash, count as nat),
        in_trash && count > 0 ==> r@ == "回收站 · 已选 "@ + decimal(count as nat) + " 项"@,
        in_trash && count == 0 ==> r@ == "回收站"@,
        !in_trash && count > 0 ==> r@ == "已选 "@ + decimal(count as nat) + " 项"@,
        !in_trash && count == 0 ==> r@ == "点击素材选择，Esc 退出"@,
{
    let mut out: Vec<char> = Vec::new();
    if count > 0 {
        push_text(
            &mut out,
            if in_trash {
                "回收站 · 已选 "
            } else {
                "已选 "
            },
        );
        push_number(&mut out, count as u64);
        push_text(&mut out, " 项");
    } else if in_trash {
        push_text(&mut out, "回收站");
    } else {
        push_text(&mut out, "点击素材选择，Esc 退出");
    }
    assert(out@ =~= selection_words(in_trash, count as nat));
    string_of(out)
}

/// The number of the category that a filter is.
pub open spec fn category_code(filter: Filter) -> i32 {
    match filter {
        Filter::All => ALL_CATEGORIES,
        Filter::Trash => TRASH_CATEGORY,
        Filter::InCategory(category) => category.0 as i32,
        _ => NO_CATEGORY,
    }
}

/// The category that is marked while a filter is on.
pub fn selected_category(filter: &Filter) -> (r: i32)
    ensures
        r == category_code(*filter),
        *filter is All ==> r == -1,
        *filter is Trash ==> r == -3,
        *filter matches Filter::InCategory(category) ==> r == category.0 as i32,
        !(*filter is All || *filter is Trash || *filter is InCategory) ==> r == -2,
{
    match filter {
        Filter::All => ALL_CATEGORIES,
        Filter::Trash => TRASH_CATEGORY,
        Filter::InCategory(category) => #[verifier::truncate] (category.0 as i32),
        _ => NO_CATEGORY,
    }
}

/// The category that is marked once a search is over. Any other filter counts as all assets.
pub fn category_after_search(filter: &Filter) -> (r: i32)
    ensures
        r == if category_code(*filter) == NO_CATEGORY && !(filter is InCategory) {
            ALL_CATEGORIES
        } else {
            category_code(*filter)
        },
        *filter is Trash ==> r == -3,
        *filter matches Filter::InCategory(category) ==> r == category.0 as i32,
        !(*filter is Trash || *filter is InCategory) ==> r == -1,
{
    match filter {
        Filter::InCategory(category) => #[verifier::truncate] (category.0 as i32),
        Filter::Trash => TRASH_CATEGORY,
        _ => ALL_CATEGORIES,
    }
}

/// A filter and what it is called.
#[derive(Debug, PartialEq, Eq)]
pub struct NamedFilter {
    pub filter: Filter,
    pub label: String,
}

/// What a category is called. The list begins with all assets.
pub open spec fn category_label(code: i32, listed: Seq<Seq<char>>) -> Seq<char> {
    if code == TRASH_CATEGORY {
        "回收站"@
    } else if code < 0 {
        "全部"@
    } else if code + 1 < listed.len() {
        listed[code + 1]
    } else {
        "分类"@ + signed_decimal(code as int)
    }
}

/// The filter for a category that was clicked.
pub fn filter_for(code: i32, listed: &Vec<String>) -> (r: NamedFilter)
    ensures
        r.label@ == category_label(code, texts(listed@)),
        if code == TRASH_CATEGORY {
            r.filter is Trash
        } else if code < 0 {
            r.filter is All
        } else {
            r.filter == Filter::InCategory(CategoryId(code as u32))
        },
        code == -3 <==> r.filter is Trash,
        code == -3 ==> r.label@ == "回收站"@,
        code < 0 && code != -3 ==> r.filter is All && r.label@ == "全部"@,
        code >= 0 && code + 1 < listed@.len() ==> r.label@ == listed@[code + 1]@,
        code >= 0 && code + 1 >= listed@.len() ==> r.label@ == "分类"@ + signed_decimal(code as int),
{
    if code == TRASH_CATEGORY {
        return NamedFilter { filter: Filter::Trash, label: "回收站".to_owned() };
    }
    if code < 0 {
        return NamedFilter { filter: Filter::All, label: "全部".to_owned() };
    }
    let at: usize = code as usize;
    let label = if at < listed.len() && at + 1 < listed.len() {
        assert(texts(listed@)[at + 1] == listed@[at + 1]@);
        listed[at + 1].clone()
    } else {
        let mut out: Vec<char> = Vec::new();
        push_text(&mut out, "分类");
        push_signed(&mut out, code as i64);
        assert(out@ =~= "分类"@ + signed_decimal(code as int));
        string_of(out)
    };
    NamedFilter { filter: Filter::InCategory(CategoryId(code as u32)), label }
}

/// What is said of where a search looks.
pub open spec fn scope_words(scope: SearchScope) -> Seq<char> {
    match scope {
        SearchScope::FileName => " · 仅文件名"@,
        SearchScope::Category => " · 仅分类"@,
        SearchScope::Tag => " · 仅标签"@,
        SearchScope::All => ""@,
    }
}

/// What a search is called; nothing where there is nothing to search for.
pub fn search_label(query: &str, scope: SearchScope) -> (r: Option<String>)
    ensures
        match r {
            Some(label) => trimmed(query@).len() > 0 && label@ == "搜索「"@ + trimmed(query@) + "」"@
                + scope_words(scope),
            None => trimmed(query@).len() == 0,
        },
        r matches Some(label) ==> match scope {
            SearchScope::All => label@ == "搜索「"@ + trimmed(query@) + "」"@ + ""@,
            SearchScope::FileName => label@ == "搜索「"@ + trimmed(query@) + "」"@ + " · 仅文件名"@,
            SearchScope::Category => label@ == "搜索「"@ + trimmed(query@) + "」"@ + " · 仅分类"@,
            SearchScope::Tag => label@ == "搜索「"@ + trimmed(query@) + "」"@ + " · 仅标签"@,
        },
{
    let said = trim(query);
    if said.unicode_len() == 0 {
        return None;
    }
    let suffix = match scope {
        SearchScope::FileName => " · 仅文件名",
        SearchScope::Category => " · 仅分类",
        SearchScope::Tag => " · 仅标签",
        SearchScope::All => "",
    };
    Some("搜索「".to_owned().concat(said).concat("」").concat(suffix))
}

/// What the menu of assets is called: by the name of the only one, or by their number.
pub open spec fn menu_words(count: nat, name: Option<Seq<char>>) -> Seq<char> {
    if count == 1 && name is Some {
        name->0
    } else {
        decimal(count) + " 项"@
    }
}

/// What the menu of assets is called.
pub fn menu_title(count: usize, name: Option<&str>) -> (r: String)
    ensures
        r@ == menu_words(
            count as nat,
            match name {
                Some(name) => Some(name@),
                None => None,
            },
        ),
        count == 1 && name is Some ==> r@ == name->0@,
        count != 1 || name is None ==> r@ == decimal(count as nat) + " 项"@,
{
    match name {
        Some(name) if count == 1 => name.to_owned(),
        _ => {
            let mut out: Vec<char> = Vec::new();
            push_number(&mut out, count as u64);
            push_text(&mut out, " 项");
            string_of(out)
        },
    }
}

/// How a paste target is.
#[derive(Debug, Clone, Copy, PartialEq, Eq, Structural)]
pub enum TargetHealth {
    Green,
    Yellow,
    Red,
    Unknown,
}

/// The colour that shows how a paste target is.
pub fn health_color(health: TargetHealth) -> (r: u32)
    ensures
        r == match health {
            TargetHealth::Green => 0xFF5AC18Eu32,
            TargetHealth::Yellow => 0xFFE0B84F,
            TargetHealth::Red => 0xFFE06C75,
            TargetHealth::Unknown => 0xFF777B80,
        },
{
    match health {
        TargetHealth::Green => 0xFF5AC18E,
        TargetHealth::Yellow => 0xFFE0B84F,
        TargetHealth::Red => 0xFFE06C75,
        TargetHealth::Unknown => 0xFF777B80,
    }
}

/// What is said of a paste target that can be chosen: whether it has a window, and whether
/// that can be seen.
pub fn choice_status(available: bool, visible: bool) -> (r: &'static str)
    ensures
        r@ == if !available {
            "未运行 · 选择后仅复制"@
        } else if visible {
            "运行中 · 可选择"@
        } else {
            "隐藏中 · 可选择"@
        },
{
    if !available {
        "未运行 · 选择后仅复制"
    } else if visible {
        "运行中 · 可选择"
    } else {
        "隐藏中 · 可选择"
    }
}

/// How long a notice stays: good news goes by itself, and the rest stays until it is read.
pub fn notice_lifetime_ms(tone: TargetNoticeTone) -> (r: Option<u64>)
    ensures
        r == if tone is Success {
            Some(3200u64)
        } else {
            None
        },
{
    match tone {
        TargetNoticeTone::Success => Some(3200),
        _ => None,
    }
}

/// What is said of how large a picture is.
pub open spec fn dimensions_words(width: Option<u32>, height: Option<u32>) -> Seq<char> {
    match (width, height) {
        (Some(w), Some(h)) => decimal(w as nat) + " × "@ + decimal(h as nat) + " px"@,
        _ => "—（尚未探测）"@,
    }
}

/// What is said of how large a picture is.
pub fn dimensions_text(width: Option<u32>, height: Option<u32>) -> (r: String)
    ensures
        r@ == dimensions_words(width, height),
        width is Some && height is Some ==> r@ == decimal(width->0 as nat) + " × "@ + decimal(
            height->0 as nat,
        ) + " px"@,
        width is None || height is None ==> r@ == "—（尚未探测）"@,
{
    match (width, height) {
        (Some(w), Some(h)) => {
            let mut out: Vec<char> = Vec::new();
            push_number(&mut out, w as u64);
            push_text(&mut out, " × ");
            push_number(&mut out, h as u64);
            push_text(&mut out, " px");
            assert(out@ =~= dimensions_words(width, height));
            string_of(out)
        },
        _ => "—（尚未探测）".to_owned(),
    }
}

/// A moment to the minute.
pub open spec fn minute_text(year: int, month: int, day: int, second_of_day: int) -> Seq<char> {
    padded(year as nat, 4) + "-"@ + padded(month as nat, 2) + "-"@ + padded(day as nat, 2) + " "@
        + padded((second_of_day / 3600) as nat, 2) + ":"@ + padded(
        ((second_of_day % 3600) / 60) as nat,
        2,
    )
}

/// The moment `secs` seconds after the start of 1970; a dash where there is none.
pub fn format_timestamp(secs: i64) -> (r: String)
    ensures
        secs <= 0 ==> r@ == "—"@,
        secs > 0 ==> exists|year: int, month: int, day: int| #[trigger]
            valid_date(year, month, day) && day_number(year, month, day) == secs as int / 86_400
                && r@ == minute_text(year, month, day, secs as int % 86_400),
{
    if secs <= 0 {
        return "—".to_owned();
    }
    let days: i64 = secs / 86_400;
    let second_of_day: u64 = (secs % 86_400) as u64;
    let (y, m, d) = civil_from_days(days);
    proof {
        days_count_from_1970(y as int, m as int, d as int);
    }
    let mut out: Vec<char> = Vec::new();
    push_padded(&mut out, y as u64, 4);
    push_text(&mut out, "-");
    push_padded(&mut out, m as u64, 2);
    push_text(&mut out, "-");
    push_padded(&mut out, d as u64, 2);
    push_text(&mut out, " ");
    push_padded(&mut out, second_of_day / 3600, 2);
    push_text(&mut out, ":");
    push_padded(&mut out, (second_of_day % 3600) / 60, 2);
    proof {
        assert(out@ =~= minute_text(y as int, m as int, d as int, secs as int % 86_400));
        assert(valid_date(y as int, m as int, d as int));
    }
    string_of(out)
}

/// A category that was clicked is the one that is marked, as long as it is one.
pub proof fn clicked_category_is_marked(code: i32, filter: Filter)
    requires
        code >= 0 || code == TRASH_CATEGORY || code == ALL_CATEGORIES,
        if code == TRASH_CATEGORY {
            filter is Trash
        } else if code < 0 {
            filter is All
        } else {
            filter == Filter::InCategory(CategoryId(code as u32))
        },
    ensures
        category_code(filter) == code,
{
    if code >= 0 {
        assert((code as u32) as i32 == code) by (bit_vector)
            requires
                code >= 0,
        ;
    }
}

proof fn first_facet_counts(facets: Seq<(String, i32)>, name: Seq<char>, from: int, at: int)
    requires
        0 <= from <= at <= facets.len(),
        forall|k: int| from <= k < at ==> (#[trigger] facets[k]).0@ != name,
        at < facets.len() ==> facets[at].0@ == name,
    ensures
        count_of(facets, name, from) == if at < facets.len() {
            facets[at].1
        } else {
            0
        },
    decreases at - from,
{
    if from < at {
        assert(facets[from].0@ != name);
        first_facet_counts(facets, name, from + 1, at);
    }
}

/// The sum of counts grows by each count that is added, from nothing.
pub proof fn sums_grow_count_by_count(counts: Seq<i32>, count: i32)
    ensures
        sum(Seq::<i32>::empty()) == 0,
        sum(counts.push(count)) == sum(counts) + count,
{
    assert(counts.push(count).drop_last() =~= counts);
}

/// A moment is written as year, month, day, hour and minute, each with the digits it needs.
pub proof fn moments_are_written_to_the_minute(
    year: int,
    month: int,
    day: int,
    hour: int,
    minute: int,
    second: int,
)
    requires
        0 <= hour < 24,
        0 <= minute < 60,
        0 <= second < 60,
    ensures
        minute_text(year, month, day, hour * 3600 + minute * 60 + second) == padded(year as nat, 4)
            + "-"@ + padded(month as nat, 2) + "-"@ + padded(day as nat, 2) + " "@ + padded(
            hour as nat,
            2,
        ) + ":"@ + padded(minute as nat, 2),
{
    let at = hour * 3600 + minute * 60 + second;
    assert(at / 3600 == hour);
    assert(at % 3600 == minute * 60 + second);
    assert((at % 3600) / 60 == minute);
}

} // verus!
