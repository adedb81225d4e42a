//! File paths as text.
//!
//! How a path splits into names depends on the platform: `\` separates names, and a
//! letter with a colon is a drive, on Windows only. A contract here says what holds
//! under one reading or the other; on most paths the two agree. Paths that begin with
//! two separators name shares and devices on Windows: of shares such as
//! `\\server\share` it is said what follows the share, devices are left open.

use std::path::{Component, Path};

use vstd::prelude::*;

#[allow(unused_imports)]
use crate::text::ascii_lowered;
use crate::text::chars_of;

verus! {

/// A component of a path.
#[derive(Debug, Clone, PartialEq, Eq)]
pub enum PathPart {
    Prefix,
    Root,
    Current,
    Parent,
    Normal(String),
}

pub open spec fn separator(c: char, windows: bool) -> bool {
    c == '/' || (windows && c == '\\')
}

pub open spec fn ascii_letter(c: char) -> bool {
    'a' <= c <= 'z' || 'A' <= c <= 'Z'
}

/// `path` without a drive such as `C:` in front.
pub open spec fn without_drive(path: Seq<char>, windows: bool) -> Seq<char> {
    if windows && path.len() >= 2 && ascii_letter(path[0]) && path[1] == ':' {
        path.skip(2)
    } else {
        path
    }
}

/// `path` cut at every separator.
pub open spec fn pieces(path: Seq<char>, windows: bool) -> Seq<Seq<char>>
    decreases path.len(),
{
    if path.len() == 0 {
        seq![Seq::<char>::empty()]
    } else {
        let before = pieces(path.drop_last(), windows);
        if separator(path.last(), windows) {
            before.push(Seq::empty())
        } else {
            before.update(before.len() - 1, before.last().push(path.last()))
        }
    }
}

/// The names in `path`: its pieces other than empty ones and `.`.
pub open spec fn names(path: Seq<char>, windows: bool) -> Seq<Seq<char>> {
    pieces(without_drive(path, windows), windows).filter(
        |piece: Seq<char>| piece.len() > 0 && piece != seq!['.'],
    )
}

pub open spec fn is_up(name: Seq<char>) -> bool {
    name == seq!['.', '.']
}

/// A path that does not begin with two separators.
pub open spec fn plain(path: Seq<char>) -> bool {
    !(path.len() >= 2 && separator(path[0], true) && separator(path[1], true))
}

/// A path that begins with two separators, a server and a share, as in `\\server\share`.
/// Where the first name begins with `?` or `.` it may be a device.
pub open spec fn share(path: Seq<char>) -> bool {
    let parts = pieces(path, true);
    &&& !plain(path)
    &&& parts.len() >= 4
    &&& parts[2].len() > 0
    &&& parts[2][0] != '?'
    &&& parts[2][0] != '.'
    &&& parts[3].len() > 0
    &&& parts[3] != seq!['.']
}

/// The last name of such a path is known: it is plain, or something follows its share.
pub open spec fn told(path: Seq<char>) -> bool {
    plain(path) || (share(path) && names(path, true).len() >= 3)
}

/// The directory of such a path is known: it is plain, or two names follow its share.
pub open spec fn housed(path: Seq<char>) -> bool {
    plain(path) || (share(path) && names(path, true).len() >= 4)
}

/// The names that components stand for.
pub open spec fn part_names(parts: Seq<PathPart>) -> Seq<Seq<char>>
    decreases parts.len(),
{
    if parts.len() == 0 {
        Seq::empty()
    } else {
        let before = part_names(parts.drop_last());
        match parts.last() {
            PathPart::Parent => before.push(seq!['.', '.']),
            PathPart::Normal(name) => before.push(name@),
            _ => before,
        }
    }
}

/// No component is a name that stands for something else.
pub open spec fn parts_genuine(parts: Seq<PathPart>) -> bool {
    forall|i: int|
        0 <= i < parts.len() ==> match #[trigger] parts[i] {
            PathPart::Normal(name) => !is_up(name@) && name@.len() > 0,
            _ => true,
        }
}

/// `parts` is how one platform or the other reads `path`.
pub open spec fn reads_as(path: Seq<char>, parts: Seq<PathPart>) -> bool {
    exists|windows: bool| part_names(parts) == #[trigger] names(path, windows)
}

/// `parts` is how one platform or the other reads a path with a share. To Windows server
/// and share are no names, unless it does not take the path for one with a share.
pub open spec fn reads_as_share(path: Seq<char>, parts: Seq<PathPart>) -> bool {
    ||| part_names(parts) == names(path, false)
    ||| part_names(parts) == names(path, true)
    ||| part_names(parts) == names(path, true).skip(2)
}

/// `Path::components`: the components of a path in order.
///
/// Claims that names come as they are written, that a component `..` is never given as
/// a name, that a plain path is split as [`names`] says for this platform, and that
/// nothing but server and share may be left out of a path with a share.
#[verifier::external_body]
fn components(path: &str) -> (parts: Vec<PathPart>)
    ensures
        parts_genuine(parts@),
        plain(path@) ==> reads_as(path@, parts@),
        share(path@) ==> reads_as_share(path@, parts@),
{
    Path::new(path)
        .components()
        .map(|component| match component {
            Component::Prefix(_) => PathPart::Prefix,
            Component::RootDir => PathPart::Root,
            Component::CurDir => PathPart::Current,
            Component::ParentDir => PathPart::Parent,
            Component::Normal(name) => PathPart::Normal(name.to_string_lossy().into_owned()),
        })
        .collect()
}

/// The last name of a path: `None` where there is none or where it is `..`.
pub open spec fn final_name(names: Seq<Seq<char>>) -> Option<Seq<char>> {
    if names.len() == 0 || is_up(names.last()) {
        None
    } else {
        Some(names.last())
    }
}

/// The last name of the directory that a path lies in.
pub open spec fn parent_name(names: Seq<Seq<char>>) -> Option<Seq<char>> {
    if names.len() == 0 {
        None
    } else {
        final_name(names.drop_last())
    }
}

/// The position of the last dot, or -1.
pub open spec fn last_dot(name: Seq<char>) -> int
    decreases name.len(),
{
    if name.len() == 0 {
        -1
    } else if name.last() == '.' {
        name.len() - 1
    } else {
        last_dot(name.drop_last())
    }
}

/// What follows the last dot of a name, where that dot does not begin the name.
pub open spec fn name_extension(name: Seq<char>) -> Option<Seq<char>> {
    if last_dot(name) <= 0 {
        None
    } else {
        Some(name.skip(last_dot(name) + 1))
    }
}

/// The extension of a path under one reading.
pub open spec fn path_extension(path: Seq<char>, windows: bool) -> Option<Seq<char>> {
    match final_name(names(path, windows)) {
        Some(name) => name_extension(name),
        None => None,
    }
}

/// The name of the directory of a path under one reading.
pub open spec fn path_parent_name(path: Seq<char>, windows: bool) -> Option<Seq<char>> {
    parent_name(names(path, windows))
}

/// The text in an optional string.
pub open spec fn text_of(text: Option<String>) -> Option<Seq<char>> {
    match text {
        Some(s) => Some(s@),
        None => None,
    }
}

proof fn last_dot_bounds(name: Seq<char>)
    ensures
        -1 <= last_dot(name) < name.len(),
    decreases name.len(),
{
    if name.len() > 0 && name.last() != '.' {
        last_dot_bounds(name.drop_last());
    }
}

/// What follows the last dot of a file name.
pub fn extension_of_name(name: &str) -> (r: Option<String>)
    ensures
        text_of(r) == name_extension(name@),
{
    let chars = chars_of(name);
    let mut end: usize = chars.len();
    assert(name@.take(end as int) =~= name@);
    while end > 0 && chars[end - 1] != '.'
        invariant
            chars@ == name@,
            end <= chars@.len(),
            last_dot(name@) == last_dot(name@.take(end as int)),
        decreases end,
    {
        assert(name@.take(end as int).drop_last() =~= name@.take(end - 1));
        end = end - 1;
    }
    if end <= 1 {
        None
    } else {
        Some(name.substring_char(end, chars.len()).to_owned())
    }
}

/// The last component, where it is a name, is the last name.
proof fn last_part_is_final_name(parts: Seq<PathPart>)
    requires
        parts_genuine(parts),
        parts.len() > 0,
    ensures
        match parts.last() {
            PathPart::Normal(name) => final_name(part_names(parts)) == Some(name@),
            PathPart::Parent => final_name(part_names(parts)) is None,
            _ => part_names(parts) == part_names(parts.drop_last()),
        },
{
}

/// Position of the last component that counts as a name, with everything after it
/// dropped; `parts.len()` where there is none.
fn last_named(parts: &Vec<PathPart>, end: usize) -> (r: Option<usize>)
    requires
        end <= parts@.len(),
    ensures
        match r {
            Some(i) => {
                &&& i < end
                &&& parts@[i as int] is Parent || parts@[i as int] is Normal
                &&& part_names(parts@.take(end as int)) == part_names(parts@.take(i + 1))
            },
            None => part_names(parts@.take(end as int)).len() == 0,
        },
{
    let mut i: usize = end;
    while i > 0
        invariant
            i <= end <= parts@.len(),
            part_names(parts@.take(end as int)) == part_names(parts@.take(i as int)),
        decreases i,
    {
        assert(parts@.take(i as int).drop_last() =~= parts@.take(i - 1));
        match &parts[i - 1] {
            PathPart::Parent => {
                return Some(i - 1);
            },
            PathPart::Normal(_) => {
                return Some(i - 1);
            },
            _ => {},
        }
        i = i - 1;
    }
    None
}

fn name_before(parts: &Vec<PathPart>, end: usize) -> (r: Option<String>)
    requires
        end <= parts@.len(),
        parts_genuine(parts@),
    ensures
        text_of(r) == final_name(part_names(parts@.take(end as int))),
{
    match last_named(parts, end) {
        None => None,
        Some(i) => {
            proof {
                let upto = parts@.take(i + 1);
                assert(parts_genuine(upto));
                last_part_is_final_name(upto);
            }
            match &parts[i] {
                PathPart::Normal(name) => Some(name.clone()),
                _ => None,
            }
        },
    }
}

/// Where the last name of a path is known, it is that of one reading.
proof fn last_name_is_told(path: Seq<char>, parts: Seq<PathPart>)
    requires
        told(path),
        plain(path) ==> reads_as(path, parts),
        share(path) ==> reads_as_share(path, parts),
    ensures
        exists|windows: bool|
            final_name(part_names(parts)) == final_name(#[trigger] names(path, windows)),
{
    if plain(path) {
        let windows = choose|windows: bool| part_names(parts) == #[trigger] names(path, windows);
        assert(final_name(part_names(parts)) == final_name(names(path, windows)));
    } else {
        let all = names(path, true);
        assert(all.skip(2).last() == all.last());
        let other = names(path, false);
        if part_names(parts) == other {
            assert(final_name(part_names(parts)) == final_name(names(path, false)));
        } else {
            assert(final_name(part_names(parts)) == final_name(names(path, true)));
        }
    }
}

/// Where the directory of a path is known, it is that of one reading.
proof fn parent_name_is_told(path: Seq<char>, parts: Seq<PathPart>)
    requires
        housed(path),
        plain(path) ==> reads_as(path, parts),
        share(path) ==> reads_as_share(path, parts),
    ensures
        exists|windows: bool|
            parent_name(part_names(parts)) == parent_name(#[trigger] names(path, windows)),
{
    if plain(path) {
        let windows = choose|windows: bool| part_names(parts) == #[trigger] names(path, windows);
        assert(parent_name(part_names(parts)) == parent_name(names(path, windows)));
    } else {
        let all = names(path, true);
        assert(all.skip(2).drop_last().last() == all.drop_last().last());
        let other = names(path, false);
        if part_names(parts) == other {
            assert(parent_name(part_names(parts)) == parent_name(names(path, false)));
        } else {
            assert(parent_name(part_names(parts)) == parent_name(names(path, true)));
        }
    }
}

/// The extension of a path, without its dot.
pub fn extension(path: &str) -> (r: Option<String>)
    ensures
        told(path@) ==> exists|windows: bool| #[trigger]
            path_extension(path@, windows) == text_of(r),
{
    let parts = components(path);
    let name = name_before(&parts, parts.len());
    let r = match &name {
        Some(name) => extension_of_name(name.as_str()),
        None => None,
    };
    proof {
        assert(parts@.take(parts@.len() as int) =~= parts@);
        if told(path@) {
            last_name_is_told(path@, parts@);
            let windows = choose|windows: bool|
                final_name(part_names(parts@)) == final_name(#[trigger] names(path@, windows));
            assert(path_extension(path@, windows) == text_of(r));
        }
    }
    r
}

/// The last name of a path under one reading.
pub open spec fn path_file_name(path: Seq<char>, windows: bool) -> Option<Seq<char>> {
    final_name(names(path, windows))
}

/// The last name of a path.
pub fn file_name(path: &str) -> (r: Option<String>)
    ensures
        told(path@) ==> exists|windows: bool| #[trigger]
            path_file_name(path@, windows) == text_of(r),
{
    let parts = components(path);
    assert(parts@.take(parts@.len() as int) =~= parts@);
    let r = name_before(&parts, parts.len());
    proof {
        if told(path@) {
            last_name_is_told(path@, parts@);
            let windows = choose|windows: bool|
                final_name(part_names(parts@)) == final_name(#[trigger] names(path@, windows));
            assert(path_file_name(path@, windows) == text_of(r));
        }
    }
    r
}

/// The name of the directory that a path lies in.
pub fn parent_directory(path: &str) -> (r: Option<String>)
    ensures
        housed(path@) ==> exists|windows: bool| #[trigger]
            path_parent_name(path@, windows) == text_of(r),
{
    let parts = components(path);
    assert(parts@.take(parts@.len() as int) =~= parts@);
    let r = match last_named(&parts, parts.len()) {
        None => None,
        Some(i) => {
            proof {
                let upto = parts@.take(i + 1);
                assert(upto.drop_last() =~= parts@.take(i as int));
                assert(part_names(upto).drop_last() =~= part_names(parts@.take(i as int)));
            }
            name_before(&parts, i)
        },
    };
    proof {
        if housed(path@) {
            parent_name_is_told(path@, parts@);
            let windows = choose|windows: bool|
                parent_name(part_names(parts@)) == parent_name(#[trigger] names(path@, windows));
            assert(path_parent_name(path@, windows) == text_of(r));
        }
    }
    r
}

/// The letter of the drive in front of a path.
pub open spec fn drive(path: Seq<char>, windows: bool) -> Option<char> {
    if windows && path.len() >= 2 && ascii_letter(path[0]) && path[1] == ':' {
        Some(path[0])
    } else {
        None
    }
}

/// The names of `path` are counted from a root.
pub open spec fn rooted(path: Seq<char>, windows: bool) -> bool {
    let below = without_drive(path, windows);
    below.len() > 0 && separator(below[0], windows)
}

/// `path` begins with the name `.`, which counts only there.
pub open spec fn from_here(path: Seq<char>, windows: bool) -> bool {
    !rooted(path, windows) && pieces(without_drive(path, windows), windows)[0] == seq!['.']
}

/// The components of two paths are the same, as far as they follow a drive.
pub open spec fn same_below(a: Seq<char>, b: Seq<char>, windows: bool) -> bool {
    &&& rooted(a, windows) == rooted(b, windows)
    &&& from_here(a, windows) == from_here(b, windows)
    &&& names(a, windows) == names(b, windows)
}

/// Under one reading `same` says whether two paths have the same components. Left open is
/// whether drives that differ in case are the same, and what a `.` right behind a drive is.
pub open spec fn compared_under(
    a: Seq<char>,
    b: Seq<char>,
    windows: bool,
    same: bool,
) -> bool {
    match (drive(a, windows), drive(b, windows)) {
        (None, None) => same == same_below(a, b, windows),
        (Some(x), Some(y)) => {
            &&& x == y && !from_here(a, windows) && !from_here(b, windows) ==> same == same_below(
                a,
                b,
                windows,
            )
            &&& ascii_lowered(x) != ascii_lowered(y) ==> !same
            &&& same ==> rooted(a, windows) == rooted(b, windows) && names(a, windows) == names(
                b,
                windows,
            )
        },
        _ => !same,
    }
}

/// `same` may be the answer to whether two paths are the same.
pub open spec fn compared(a: Seq<char>, b: Seq<char>, same: bool) -> bool {
    &&& a == b ==> same
    &&& plain(a) && plain(b) ==> exists|windows: bool| #[trigger]
        compared_under(a, b, windows, same)
}

/// `==` of `std::path::Path`: whether two paths have the same components.
///
/// Claims that a path is the same as itself, and that plain paths are the same where the
/// platform reads the same root and names in them: separators at the end or in a row, and
/// names `.` other than the first, make no difference.
#[verifier::external_body]
pub(crate) fn same_path(a: &str, b: &str) -> (r: bool)
    ensures
        compared(a@, b@, r),
{
    Path::new(a) == Path::new(b)
}

/// Under one reading `parent` is `path` without its last component, where it has one.
pub open spec fn parent_under(path: Seq<char>, parent: Option<Seq<char>>, windows: bool) -> bool {
    let all = names(path, windows);
    if all.len() > 0 {
        &&& parent matches Some(dir)
        &&& drive(dir, windows) == drive(path, windows)
        &&& rooted(dir, windows) == rooted(path, windows)
        &&& drive(path, windows) is None ==> from_here(dir, windows) == from_here(path, windows)
        &&& names(dir, windows) == all.drop_last()
    } else if !from_here(path, windows) {
        parent is None
    } else {
        drive(path, windows) is None ==> parent == Some(Seq::<char>::empty())
    }
}

/// `parent` may be the directory that a path lies in.
pub open spec fn lies_in(path: Seq<char>, parent: Option<Seq<char>>) -> bool {
    plain(path) ==> exists|windows: bool| #[trigger] parent_under(path, parent, windows)
}

/// `Path::parent`: the path without its last component, where it has one.
///
/// Claims of a plain path that the root and the names before the last one are those of the
/// result.
#[verifier::external_body]
pub(crate) fn parent_path(path: &str) -> (r: Option<String>)
    ensures
        lies_in(path@, text_of(r)),
{
    Path::new(path).parent().map(|dir| dir.to_string_lossy().into_owned())
}

/// A name behind a separator is one more piece.
proof fn one_more_piece(path: Seq<char>, sep: char, name: Seq<char>, windows: bool)
    requires
        separator(sep, windows),
        forall|i: int| 0 <= i < name.len() ==> !separator(#[trigger] name[i], windows),
    ensures
        pieces(path + seq![sep] + name, windows) == pieces(path, windows).push(name),
    decreases name.len(),
{
    let whole = path + seq![sep] + name;
    let before = pieces(path, windows);
    if name.len() == 0 {
        assert(whole.drop_last() =~= path);
        assert(name =~= Seq::empty());
    } else {
        let shorter = name.drop_last();
        assert forall|i: int| 0 <= i < shorter.len() implies !separator(
            #[trigger] shorter[i],
            windows,
        ) by {
            assert(name[i] == shorter[i]);
        }
        one_more_piece(path, sep, shorter, windows);
        assert(whole.drop_last() =~= path + seq![sep] + shorter);
        assert(whole.last() == name[name.len() - 1]);
        assert(shorter.push(name.last()) =~= name);
        assert(before.push(shorter).update(before.len() as int, name) =~= before.push(name));
    }
}

proof fn names_of_a_file(dir: Seq<char>, sep: char, name: Seq<char>, windows: bool)
    requires
        separator(sep, windows),
        name.len() > 0,
        name != seq!['.'],
        forall|i: int| 0 <= i < name.len() ==> !separator(#[trigger] name[i], windows),
    ensures
        names(dir + seq![sep] + name, windows) == names(dir, windows).push(name),
{
    let path = dir + seq![sep] + name;
    let below = without_drive(dir, windows);
    assert(without_drive(path, windows) =~= below + seq![sep] + name) by {
        if dir.len() >= 2 {
            assert(path[0] == dir[0] && path[1] == dir[1]);
        } else if dir.len() == 1 {
            assert(path[1] == sep);
        } else {
            assert(path[0] == sep);
        }
    }
    one_more_piece(below, sep, name, windows);
    let kept = |piece: Seq<char>| piece.len() > 0 && piece != seq!['.'];
    let before = pieces(below, windows);
    assert(before.push(name).drop_last() =~= before);
    reveal(Seq::filter);
    assert(before.push(name).filter(kept) == before.filter(kept).push(name));
}

/// The last name of `dir/name` is `name`, and the names before it are those of `dir`; on
/// Windows `dir\name` is read alike.
pub proof fn file_names_come_last(dir: Seq<char>, sep: char, name: Seq<char>, windows: bool)
    requires
        sep == '/' || (windows && sep == '\\'),
        name.len() > 0,
        name != seq!['.'],
        name != seq!['.', '.'],
        forall|i: int|
            0 <= i < name.len() ==> #[trigger] name[i] != '/' && !(windows && name[i] == '\\'),
    ensures
        names(dir + seq![sep] + name, windows) == names(dir, windows).push(name),
        path_file_name(dir + seq![sep] + name, windows) == Some(name),
        path_extension(dir + seq![sep] + name, windows) == name_extension(name),
        path_parent_name(dir + seq![sep] + name, windows) == path_file_name(dir, windows),
{
    names_of_a_file(dir, sep, name, windows);
    assert(names(dir, windows).push(name).drop_last() =~= names(dir, windows));
}

/// A text without separators, and without a drive on Windows, is one name.
pub proof fn bare_names_are_their_own(name: Seq<char>, windows: bool)
    requires
        name.len() > 0,
        name != seq!['.'],
        name != seq!['.', '.'],
        forall|i: int|
            0 <= i < name.len() ==> #[trigger] name[i] != '/' && name[i] != '\\' && name[i] != ':',
    ensures
        names(name, windows) == seq![name],
        path_file_name(name, windows) == Some(name),
        path_extension(name, windows) == name_extension(name),
        path_parent_name(name, windows) is None,
{
    if name.len() >= 2 {
        assert(name[1] != ':');
    }
    one_piece(name, windows);
    let kept = |piece: Seq<char>| piece.len() > 0 && piece != seq!['.'];
    reveal(Seq::filter);
    assert(seq![name].drop_last() =~= Seq::<Seq<char>>::empty());
    assert(Seq::<Seq<char>>::empty().filter(kept) =~= Seq::<Seq<char>>::empty());
    assert(seq![name].filter(kept) =~= seq![name]);
    assert(seq![name].drop_last().len() == 0);
}

proof fn one_piece(name: Seq<char>, windows: bool)
    requires
        forall|i: int| 0 <= i < name.len() ==> !separator(#[trigger] name[i], windows),
    ensures
        pieces(name, windows) == seq![name],
    decreases name.len(),
{
    if name.len() == 0 {
        assert(name =~= Seq::<char>::empty());
    } else {
        let shorter = name.drop_last();
        assert forall|i: int| 0 <= i < shorter.len() implies !separator(
            #[trigger] shorter[i],
            windows,
        ) by {
            assert(name[i] == shorter[i]);
        }
        one_piece(shorter, windows);
        assert(name.last() == name[name.len() - 1]);
        assert(shorter.push(name.last()) =~= name);
        assert(seq![shorter].update(0, name) =~= seq![name]);
    }
}

/// A separator at the end, a second one in a row, and a name `.` make no difference to the
/// names.
pub proof fn empty_names_do_not_count(dir: Seq<char>, sep: char, windows: bool)
    requires
        sep == '/' || (windows && sep == '\\'),
        dir.len() > 0,
    ensures
        names(dir + seq![sep], windows) == names(dir, windows),
        names(dir + seq![sep] + seq!['.'], windows) == names(dir, windows),
{
    let below = without_drive(dir, windows);
    let nothing = Seq::<char>::empty();
    let dot = seq!['.'];
    assert(dir + seq![sep] =~= dir + seq![sep] + nothing);
    assert(without_drive(dir + seq![sep] + nothing, windows) =~= below + seq![sep] + nothing) by {
        if dir.len() >= 2 {
            assert((dir + seq![sep] + nothing)[1] == dir[1]);
        }
    }
    assert(without_drive(dir + seq![sep] + dot, windows) =~= below + seq![sep] + dot) by {
        if dir.len() >= 2 {
            assert((dir + seq![sep] + dot)[1] == dir[1]);
        }
    }
    one_more_piece(below, sep, nothing, windows);
    one_more_piece(below, sep, dot, windows);
    let kept = |piece: Seq<char>| piece.len() > 0 && piece != seq!['.'];
    let before = pieces(below, windows);
    reveal(Seq::filter);
    assert(before.push(nothing).drop_last() =~= before);
    assert(before.push(dot).drop_last() =~= before);
    assert(before.push(nothing).filter(kept) == before.filter(kept));
    assert(before.push(dot).filter(kept) == before.filter(kept));
}

/// Of every path that does not begin with two separators, name and directory are known.
pub proof fn ordinary_paths_are_told(path: Seq<char>)
    requires
        path.len() < 2 || (path[0] != '/' && path[0] != '\\') || (path[1] != '/' && path[1]
            != '\\'),
    ensures
        told(path),
        housed(path),
{
}

/// The extension begins behind the last dot.
pub proof fn last_dot_is_before_the_extension(stem: Seq<char>, ext: Seq<char>)
    requires
        forall|i: int| 0 <= i < ext.len() ==> #[trigger] ext[i] != '.',
    ensures
        last_dot(stem + seq!['.'] + ext) == stem.len(),
        stem.len() > 0 ==> name_extension(stem + seq!['.'] + ext) == Some(ext),
        stem.len() == 0 ==> name_extension(stem + seq!['.'] + ext) is None,
    decreases ext.len(),
{
    let name = stem + seq!['.'] + ext;
    if ext.len() > 0 {
        let shorter = ext.drop_last();
        assert forall|i: int| 0 <= i < shorter.len() implies #[trigger] shorter[i] != '.' by {
            assert(ext[i] == shorter[i]);
        }
        last_dot_is_before_the_extension(stem, shorter);
        assert(name.drop_last() =~= stem + seq!['.'] + shorter);
        assert(name.last() == ext[ext.len() - 1]);
    } else {
        assert(name.last() == '.');
    }
    assert(name.skip(stem.len() as int + 1) =~= ext);
}

/// A name without a dot has no extension.
pub proof fn names_without_a_dot_have_no_extension(name: Seq<char>)
    requires
        forall|i: int| 0 <= i < name.len() ==> #[trigger] name[i] != '.',
    ensures
        name_extension(name) is None,
    decreases name.len(),
{
    if name.len() > 0 {
        let shorter = name.drop_last();
        assert forall|i: int| 0 <= i < shorter.len() implies #[trigger] shorter[i] != '.' by {
            assert(name[i] == shorter[i]);
        }
        names_without_a_dot_have_no_extension(shorter);
        assert(name.last() == name[name.len() - 1]);
    }
}

/// A file in a directory lies in that directory: without its last name its path has the
/// names of the directory.
pub proof fn files_lie_in_their_directory(
    dir: Seq<char>,
    name: Seq<char>,
    parent: Option<Seq<char>>,
    windows: bool,
)
    requires
        name.len() > 0,
        name != seq!['.'],
        forall|i: int| 0 <= i < name.len() ==> !separator(#[trigger] name[i], windows),
        parent_under(dir + seq!['/'] + name, parent, windows),
    ensures
        parent matches Some(found) && names(found, windows) == names(dir, windows),
{
    let path = dir + seq!['/'] + name;
    names_of_a_file(dir, '/', name, windows);
    assert(names(path, windows).drop_last() =~= names(dir, windows));
}

/// Two plain paths with the same text are the same; with different last names in the same
/// directory they are not.
pub proof fn paths_differ_with_their_names(
    dir: Seq<char>,
    name: Seq<char>,
    other: Seq<char>,
    windows: bool,
    same: bool,
)
    requires
        compared_under(dir + seq!['/'] + name, dir + seq!['/'] + other, windows, same),
        name != other,
        name.len() > 0 && name != seq!['.'],
        other.len() > 0 && other != seq!['.'],
        forall|i: int|
            0 <= i < name.len() ==> #[trigger] name[i] != '/' && !(windows && name[i] == '\\'),
        forall|i: int|
            0 <= i < other.len() ==> #[trigger] other[i] != '/' && !(windows && other[i] == '\\'),
    ensures
        !same,
{
    names_of_a_file(dir, '/', name, windows);
    names_of_a_file(dir, '/', other, windows);
    assert(names(dir, windows).push(name).last() == name);
    assert(names(dir, windows).push(other).last() == other);
}

/// A text that is there is that text, and one that is not is none.
pub proof fn texts_in_strings_are_their_texts(text: String)
    ensures
        text_of(Some(text)) == Some(text@),
        text_of(None) is None,
{
}

} // verus!
