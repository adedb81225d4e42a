//! Text as sequences of characters: trimming, case folding and substring search.
//!
//! Folding maps every character through the Unicode lowercase table on its own, so
//! the two sides of a comparison fold alike whatever stands next to a character.

use vstd::prelude::*;

verus! {

/// The Unicode `White_Space` property.
pub open spec fn whitespace(c: char) -> bool {
    ||| '\u{9}' <= c <= '\u{d}'
    ||| c == '\u{20}'
    ||| c == '\u{85}'
    ||| c == '\u{a0}'
    ||| c == '\u{1680}'
    ||| '\u{2000}' <= c <= '\u{200a}'
    ||| c == '\u{2028}'
    ||| c == '\u{2029}'
    ||| c == '\u{202f}'
    ||| c == '\u{205f}'
    ||| c == '\u{3000}'
}

/// `text` without its longest prefix of characters in `cut`.
pub open spec fn without_prefix(text: Seq<char>, cut: spec_fn(char) -> bool) -> Seq<char>
    decreases text.len(),
{
    if text.len() > 0 && cut(text[0]) {
        without_prefix(text.drop_first(), cut)
    } else {
        text
    }
}

/// `text` without its longest suffix of characters in `cut`.
pub open spec fn without_suffix(text: Seq<char>, cut: spec_fn(char) -> bool) -> Seq<char>
    decreases text.len(),
{
    if text.len() > 0 && cut(text.last()) {
        without_suffix(text.drop_last(), cut)
    } else {
        text
    }
}

/// `text` without the characters in `cut` at either end.
pub open spec fn stripped(text: Seq<char>, cut: spec_fn(char) -> bool) -> Seq<char> {
    without_suffix(without_prefix(text, cut), cut)
}

/// `text` without white space at either end.
pub open spec fn trimmed(text: Seq<char>) -> Seq<char> {
    stripped(text, |c: char| whitespace(c))
}

/// `text` without double quotes at either end.
pub open spec fn unquoted(text: Seq<char>) -> Seq<char> {
    stripped(text, |c: char| c == '"')
}

/// The lowercase mapping of one character: what `char::to_lowercase` yields for it.
pub uninterp spec fn lowered(c: char) -> Seq<char>;

/// Every character of `text` replaced by its lowercase mapping.
pub open spec fn folded(text: Seq<char>) -> Seq<char>
    decreases text.len(),
{
    if text.len() == 0 {
        Seq::empty()
    } else {
        folded(text.drop_last()) + lowered(text.last())
    }
}

/// `part` stands in `whole` at position `at`.
pub open spec fn occurs_at(part: Seq<char>, whole: Seq<char>, at: int) -> bool {
    &&& 0 <= at
    &&& at + part.len() <= whole.len()
    &&& whole.subrange(at, at + part.len()) == part
}

/// `part` stands somewhere in `whole`.
pub open spec fn occurs_in(part: Seq<char>, whole: Seq<char>) -> bool {
    exists|at: int| occurs_at(part, whole, at)
}

/// The lowercase form of an ASCII letter; any other character as it is.
pub open spec fn ascii_lowered(c: char) -> char {
    if 'A' <= c <= 'Z' {
        (c as u8 + 32) as char
    } else {
        c
    }
}

/// Every character of `text` mapped by [`ascii_lowered`].
pub open spec fn ascii_folded(text: Seq<char>) -> Seq<char> {
    text.map_values(|c: char| ascii_lowered(c))
}

/// Folding a concatenation folds its parts.
pub proof fn folded_concat(left: Seq<char>, right: Seq<char>)
    ensures
        folded(left + right) == folded(left) + folded(right),
    decreases right.len(),
{
    if right.len() == 0 {
        assert(left + right =~= left);
        assert(folded(left) + folded(right) =~= folded(left));
    } else {
        folded_concat(left, right.drop_last());
        assert((left + right).drop_last() =~= left + right.drop_last());
        assert(folded(left + right) =~= folded(left) + folded(right));
    }
}

/// What is found in a text is found in every longer text that starts with it.
proof fn occurs_in_extension(part: Seq<char>, whole: Seq<char>, more: Seq<char>, at: int)
    requires
        occurs_at(part, whole, at),
    ensures
        occurs_at(part, whole + more, at),
{
    assert((whole + more).subrange(at, at + part.len()) =~= whole.subrange(at, at + part.len()));
}

/// The characters that a trim may cut off.
enum Cut {
    Blank,
    Quote,
}

impl Cut {
    spec fn spec_cuts(self) -> spec_fn(char) -> bool {
        match self {
            Cut::Blank => |c: char| whitespace(c),
            Cut::Quote => |c: char| c == '"',
        }
    }

    fn cuts(&self, c: char) -> (r: bool)
        ensures
            r == (self.spec_cuts())(c),
    {
        match self {
            Cut::Blank => is_whitespace(c),
            Cut::Quote => c == '"',
        }
    }
}

/// Whether `c` is white space.
pub fn is_whitespace(c: char) -> (r: bool)
    ensures
        r == whitespace(c),
{
    ('\u{9}' <= c && c <= '\u{d}') || c == '\u{20}' || c == '\u{85}' || c == '\u{a0}' || c
        == '\u{1680}' || ('\u{2000}' <= c && c <= '\u{200a}') || c == '\u{2028}' || c == '\u{2029}'
        || c == '\u{202f}' || c == '\u{205f}' || c == '\u{3000}'
}

fn strip<'a>(text: &'a str, cut: Cut) -> (r: &'a str)
    ensures
        r@ == stripped(text@, cut.spec_cuts()),
{
    let chars = chars_of(text);
    let ghost p = cut.spec_cuts();
    let mut from: usize = 0;
    assert(text@.skip(0) =~= text@);
    while from < chars.len() && cut.cuts(chars[from])
        invariant
            from <= chars.len(),
            chars@ == text@,
            p == cut.spec_cuts(),
            without_prefix(text@, p) == without_prefix(text@.skip(from as int), p),
        decreases chars.len() - from,
    {
        assert(text@.skip(from as int).drop_first() =~= text@.skip(from + 1));
        from = from + 1;
    }
    proof {
        assert(without_prefix(text@, p) == text@.skip(from as int));
    }
    let mut to: usize = chars.len();
    assert(text@.subrange(from as int, to as int) =~= text@.skip(from as int));
    while to > from && cut.cuts(chars[to - 1])
        invariant
            from <= to <= chars.len(),
            chars@ == text@,
            p == cut.spec_cuts(),
            without_suffix(text@.skip(from as int), p) == without_suffix(
                text@.subrange(from as int, to as int),
                p,
            ),
        decreases to,
    {
        assert(text@.subrange(from as int, to as int).drop_last() =~= text@.subrange(
            from as int,
            to - 1,
        ));
        to = to - 1;
    }
    text.substring_char(from, to)
}

/// `text` without white space at either end.
pub fn trim<'a>(text: &'a str) -> (r: &'a str)
    ensures
        r@ == trimmed(text@),
{
    strip(text, Cut::Blank)
}

/// `text` without double quotes at either end.
pub fn trim_quotes<'a>(text: &'a str) -> (r: &'a str)
    ensures
        r@ == unquoted(text@),
{
    strip(text, Cut::Quote)
}

/// `char::to_lowercase`: the first character of the mapping, and the others.
///
/// Claims that the mapping is a function of the character (named [`lowered`]) with at
/// least one character in it, and that on ASCII it is [`ascii_lowered`].
#[verifier::external_body]
fn char_to_lowercase(c: char) -> (r: (char, Vec<char>))
    ensures
        seq![r.0] + r.1@ == lowered(c),
        c <= '\u{7f}' ==> r.0 == ascii_lowered(c) && r.1@.len() == 0,
{
    let mut mapping = c.to_lowercase();
    let first = mapping.next().unwrap_or(c);
    (first, mapping.collect())
}

/// A text in lower case: what `str::to_lowercase` makes of it.
pub uninterp spec fn lowercased(text: Seq<char>) -> Seq<char>;

/// `str::to_lowercase`.
///
/// Claims that the result is a function of the text, and that on ASCII it is
/// [`ascii_folded`].
#[verifier::external_body]
pub(crate) fn to_lowercase(text: &str) -> (r: String)
    ensures
        r@ == lowercased(text@),
        text.is_ascii() ==> r@ == ascii_folded(text@),
{
    text.to_lowercase()
}

/// `String::from_iter`: the string of the given characters in their order.
#[verifier::external_body]
pub(crate) fn string_of(chars: Vec<char>) -> (r: String)
    ensures
        r@ == chars@,
{
    String::from_iter(chars)
}

/// The characters of a string, in order.
pub fn chars_of(text: &str) -> (chars: Vec<char>)
    ensures
        chars@ == text@,
{
    let mut chars: Vec<char> = Vec::new();
    for c in it: text.chars()
        invariant
            it.seq() == text@,
            chars@ == text@.take(it.index() as int),
    {
        chars.push(c);
    }
    chars
}

/// Whether two texts are the same.
pub fn same_text(a: &str, b: &str) -> (r: bool)
    ensures
        r == (a@ == b@),
{
    let x = chars_of(a);
    let y = chars_of(b);
    if x.len() != y.len() {
        return false;
    }
    let mut i: usize = 0;
    while i < x.len()
        invariant
            x@ == a@,
            y@ == b@,
            x@.len() == y@.len(),
            i <= x@.len(),
            forall|k: int| 0 <= k < i ==> x@[k] == y@[k],
        decreases x@.len() - i,
    {
        if x[i] != y[i] {
            return false;
        }
        i = i + 1;
    }
    assert(a@ =~= b@);
    true
}

pub open spec fn begins(text: Seq<char>, prefix: Seq<char>) -> bool {
    text.len() >= prefix.len() && text.take(prefix.len() as int) == prefix
}

pub open spec fn ends(text: Seq<char>, suffix: Seq<char>) -> bool {
    text.len() >= suffix.len() && text.skip(text.len() - suffix.len()) == suffix
}

/// The characters of `text` from `from` on are those of `part`, as far as it goes.
fn stands_at(text: &Vec<char>, from: usize, part: &Vec<char>) -> (r: bool)
    requires
        from + part@.len() <= text@.len(),
    ensures
        r == (text@.subrange(from as int, from + part@.len()) == part@),
{
    let len: usize = text.len();
    let mut i: usize = 0;
    while i < part.len()
        invariant
            len == text@.len(),
            from + part@.len() <= len,
            i <= part@.len(),
            forall|k: int| 0 <= k < i ==> text@[from + k] == part@[k],
        decreases part@.len() - i,
    {
        if text[from + i] != part[i] {
            proof {
                assert(text@.subrange(from as int, from + part@.len())[i as int]
                    != part@[i as int]);
            }
            return false;
        }
        i = i + 1;
    }
    assert(text@.subrange(from as int, from + part@.len()) =~= part@);
    true
}

/// Whether `text` begins with `prefix`.
pub fn starts_with(text: &str, prefix: &str) -> (r: bool)
    ensures
        r == begins(text@, prefix@),
{
    let chars = chars_of(text);
    let part = chars_of(prefix);
    if chars.len() < part.len() {
        return false;
    }
    assert(text@.subrange(0, part@.len() as int) =~= text@.take(part@.len() as int));
    stands_at(&chars, 0, &part)
}

/// Whether `text` ends with `suffix`.
pub fn ends_with(text: &str, suffix: &str) -> (r: bool)
    ensures
        r == ends(text@, suffix@),
{
    let chars = chars_of(text);
    let part = chars_of(suffix);
    if chars.len() < part.len() {
        return false;
    }
    let from: usize = chars.len() - part.len();
    assert(text@.subrange(from as int, from + part@.len()) =~= text@.skip(from as int));
    stands_at(&chars, from, &part)
}

fn ascii_lower(c: char) -> (r: char)
    ensures
        r == ascii_lowered(c),
{
    if 'A' <= c && c <= 'Z' {
        (c as u8 + 32) as char
    } else {
        c
    }
}

/// What follows `prefix` in a text that begins with it.
pub fn strip_prefix<'a>(text: &'a str, prefix: &str) -> (r: Option<&'a str>)
    ensures
        match r {
            Some(rest) => begins(text@, prefix@) && rest@ == text@.skip(prefix@.len() as int),
            None => !begins(text@, prefix@),
        },
{
    if starts_with(text, prefix) {
        let from: usize = chars_of(prefix).len();
        let to: usize = chars_of(text).len();
        assert(text@.skip(from as int) =~= text@.subrange(from as int, to as int));
        Some(text.substring_char(from, to))
    } else {
        None
    }
}

/// `text` with its ASCII letters in lower case.
pub fn to_ascii_lower(text: &str) -> (r: String)
    ensures
        r@ == ascii_folded(text@),
{
    let mut out: Vec<char> = Vec::new();
    for c in it: text.chars()
        invariant
            it.seq() == text@,
            out@.len() == it.index(),
            forall|k: int| 0 <= k < it.index() ==> #[trigger] out@[k] == ascii_lowered(text@[k]),
    {
        out.push(ascii_lower(c));
    }
    assert(out@ =~= ascii_folded(text@));
    string_of(out)
}

/// A needle for [`contains_case_fold`]: `text` without white space at its ends,
/// folded.
pub fn fold_lower(text: &str) -> (r: Vec<char>)
    ensures
        r@ == folded(trimmed(text@)),
        text.is_ascii() ==> r@ == ascii_folded(trimmed(text@)),
        r@.len() >= trimmed(text@).len(),
{
    let core = trim(text);
    let ghost ascii = text.is_ascii();
    proof {
        stripped_is_a_part(text@, |c: char| whitespace(c));
    }
    let mut out: Vec<char> = Vec::new();
    for c in it: core.chars()
        invariant
            it.seq() == core@,
            out@ == folded(core@.take(it.index() as int)),
            out@.len() >= it.index(),
            ascii ==> forall|k: int| 0 <= k < core@.len() ==> #[trigger] core@[k] <= '\u{7f}',
            ascii ==> out@ == ascii_folded(core@.take(it.index() as int)),
    {
        let (first, mut rest) = char_to_lowercase(c);
        proof {
            let i = it.index() as int;
            assert(core@.take(i + 1).drop_last() =~= core@.take(i));
            assert(folded(core@.take(i + 1)) == folded(core@.take(i)) + lowered(c));
        }
        let ghost before = out@;
        out.push(first);
        out.append(&mut rest);
        assert(out@ =~= before + lowered(c));
        proof {
            if ascii {
                assert(out@ =~= ascii_folded(core@.take(it.index() + 1)));
            }
        }
    }
    assert(core@.take(core@.len() as int) =~= core@);
    out
}

/// What is left of a text once its ends are stripped stands in it, between characters that
/// were cut off.
proof fn stripped_is_a_part(text: Seq<char>, cut: spec_fn(char) -> bool)
    ensures
        occurs_in(stripped(text, cut), text),
        forall|k: int|
            0 <= k < stripped(text, cut).len() ==> text.contains(#[trigger] stripped(text, cut)[k]),
{
    let front = without_prefix(text, cut);
    let part = stripped(text, cut);
    without_prefix_is_a_tail(text, cut);
    without_suffix_is_a_head(front, cut);
    let at = text.len() - front.len();
    assert(text.subrange(at, at + part.len()) =~= part);
    assert(occurs_at(part, text, at));
    assert forall|k: int| 0 <= k < part.len() implies text.contains(#[trigger] part[k]) by {
        assert(text[at + k] == part[k]);
    }
}

proof fn without_prefix_is_a_tail(text: Seq<char>, cut: spec_fn(char) -> bool)
    ensures
        without_prefix(text, cut).len() <= text.len(),
        without_prefix(text, cut) == text.skip(text.len() - without_prefix(text, cut).len()),
        without_prefix(text, cut).len() > 0 ==> !cut(without_prefix(text, cut)[0]),
    decreases text.len(),
{
    if text.len() > 0 && cut(text[0]) {
        without_prefix_is_a_tail(text.drop_first(), cut);
    }
    assert(without_prefix(text, cut) =~= text.skip(text.len() - without_prefix(text, cut).len()));
}

proof fn without_suffix_is_a_head(text: Seq<char>, cut: spec_fn(char) -> bool)
    ensures
        without_suffix(text, cut).len() <= text.len(),
        without_suffix(text, cut) == text.take(without_suffix(text, cut).len() as int),
        without_suffix(text, cut).len() > 0 ==> !cut(without_suffix(text, cut).last()),
    decreases text.len(),
{
    if text.len() > 0 && cut(text.last()) {
        without_suffix_is_a_head(text.drop_last(), cut);
    }
    assert(without_suffix(text, cut) =~= text.take(without_suffix(text, cut).len() as int));
}

/// A needle does not change when the text it is made of is trimmed first.
pub proof fn needles_of_trimmed_texts(text: Seq<char>)
    ensures
        trimmed(trimmed(text)) == trimmed(text),
        folded(trimmed(trimmed(text))) == folded(trimmed(text)),
{
    let cut = |c: char| whitespace(c);
    let front = without_prefix(text, cut);
    let part = trimmed(text);
    without_prefix_is_a_tail(text, cut);
    without_suffix_is_a_head(front, cut);
    assert(without_prefix(part, cut) == part);
    assert(without_suffix(part, cut) == part);
}

/// The needle made of a text is found in that text.
pub proof fn needles_are_found_in_their_texts(text: Seq<char>)
    ensures
        occurs_in(folded(trimmed(text)), folded(text)),
{
    stripped_is_a_part(text, |c: char| whitespace(c));
    folded_parts_are_parts(trimmed(text), text);
}

/// The needle made of a piece of a text is found in that text.
pub proof fn needles_are_found_where_they_come_from(text: Seq<char>, i: int, j: int)
    requires
        0 <= i <= j <= text.len(),
    ensures
        occurs_in(folded(trimmed(text.subrange(i, j))), folded(text)),
{
    let piece = text.subrange(i, j);
    stripped_is_a_part(piece, |c: char| whitespace(c));
    let part = trimmed(piece);
    let at = choose|at: int| occurs_at(part, piece, at);
    assert(text.subrange(i + at, i + at + part.len()) =~= piece.subrange(at, at + part.len()));
    assert(occurs_at(part, text, i + at));
    folded_parts_are_parts(part, text);
}

/// What stands in a text stands in it after both are folded.
pub proof fn folded_parts_are_parts(part: Seq<char>, text: Seq<char>)
    requires
        occurs_in(part, text),
    ensures
        occurs_in(folded(part), folded(text)),
{
    let at = choose|at: int| occurs_at(part, text, at);
    let before = text.take(at);
    let after = text.skip(at + part.len());
    assert(text =~= before + part + after);
    folded_concat(before + part, after);
    folded_concat(before, part);
    let from = folded(before).len() as int;
    let whole = folded(text);
    assert(whole.subrange(from, from + folded(part).len()) =~= folded(part));
    assert(occurs_at(folded(part), whole, from));
}

/// A window over the last characters of a stream, held in a ring.
///
/// `ring` has the width of the window, `head` is where the next character goes, and
/// `fill` says how many places hold a character of the stream `seen`.
spec fn ring_shows(ring: Seq<char>, head: int, fill: int, seen: Seq<char>) -> bool {
    &&& 0 <= head < ring.len()
    &&& fill == if seen.len() < ring.len() {
        seen.len() as int
    } else {
        ring.len() as int
    }
    &&& forall|back: int|
        1 <= back <= fill ==> #[trigger] seen[seen.len() - back] == ring[wrapped(
            head - back,
            ring.len() as int,
        )]
}

spec fn wrapped(at: int, width: int) -> int {
    if at < 0 {
        at + width
    } else if at >= width {
        at - width
    } else {
        at
    }
}

/// Puts one character into the ring and says whether the window now equals `needle`.
fn ring_step(
    ring: &mut Vec<char>,
    head: &mut usize,
    fill: &mut usize,
    c: char,
    needle: &[char],
    Ghost(seen): Ghost<Seq<char>>,
) -> (matched: bool)
    requires
        needle@.len() > 0,
        old(ring)@.len() == needle@.len(),
        ring_shows(old(ring)@, *old(head) as int, *old(fill) as int, seen),
    ensures
        final(ring)@.len() == needle@.len(),
        ring_shows(final(ring)@, *final(head) as int, *final(fill) as int, seen.push(c)),
        matched == occurs_at(needle@, seen.push(c), seen.len() + 1 - needle@.len()),
{
    let width: usize = ring.len();
    let ghost was = ring@;
    let ghost at = *head as int;
    ring.set(*head, c);
    *head = if *head + 1 == width {
        0
    } else {
        *head + 1
    };
    if *fill < width {
        *fill = *fill + 1;
    }
    let ghost now = seen.push(c);
    proof {
        assert forall|back: int| 1 <= back <= *fill implies #[trigger] now[now.len() - back]
            == ring@[wrapped(*head - back, width as int)] by {
            if back > 1 {
                assert(now[now.len() - back] == seen[seen.len() - (back - 1)]);
                assert(wrapped(*head - back, width as int) == wrapped(
                    at - (back - 1),
                    width as int,
                ));
                assert(wrapped(at - (back - 1), width as int) != at);
            }
        }
    }
    if *fill < width {
        return false;
    }
    let mut offset: usize = 0;
    while offset < width
        invariant
            width == needle@.len(),
            ring@.len() == width,
            offset <= width,
            now == seen.push(c),
            *fill == width,
            *head < width,
            width <= now.len(),
            ring_shows(ring@, *head as int, *fill as int, now),
            forall|k: int|
                0 <= k < offset ==> now[now.len() - width + k] == #[trigger] needle@[k],
        decreases width - offset,
    {
        let place: usize = if offset < width - *head {
            *head + offset
        } else {
            offset - (width - *head)
        };
        proof {
            let back = width - offset;
            assert(now[now.len() - back] == ring@[wrapped(*head - back, width as int)]);
            assert(wrapped(*head - back, width as int) == place);
        }
        if ring[place] != needle[offset] {
            proof {
                let start = now.len() - width;
                assert(now.subrange(start, start + width)[offset as int] != needle@[offset as int]);
            }
            return false;
        }
        offset = offset + 1;
    }
    proof {
        let start = now.len() - width;
        assert(now.subrange(start, start + width) =~= needle@);
    }
    true
}

/// Whether the folded `haystack` holds `needle`, which the caller has folded.
///
/// `ring` is scratch space: a caller that scans many texts hands in the same vector
/// each time. Afterwards it has the length of the needle.
pub fn contains_case_fold(haystack: &str, needle: &[char], ring: &mut Vec<char>) -> (r: bool)
    ensures
        r == occurs_in(needle@, folded(haystack@)),
        needle@.len() == 0 ==> final(ring)@ == old(ring)@,
        needle@.len() > 0 ==> final(ring)@.len() == needle@.len(),
{
    if needle.len() == 0 {
        proof {
            assert(folded(haystack@).subrange(0, 0) =~= needle@);
            assert(occurs_at(needle@, folded(haystack@), 0));
        }
        return true;
    }
    ring.clear();
    ring.resize(needle.len(), ' ');
    let mut fill: usize = 0;
    let mut head: usize = 0;
    let ghost mut seen: Seq<char> = Seq::empty();
    for c in it: haystack.chars()
        invariant
            it.seq() == haystack@,
            needle@.len() > 0,
            ring@.len() == needle@.len(),
            seen == folded(haystack@.take(it.index() as int)),
            ring_shows(ring@, head as int, fill as int, seen),
            !occurs_in(needle@, seen),
    {
        let ghost i = it.index() as int;
        let (first, rest) = char_to_lowercase(c);
        let ghost before = seen;
        proof {
            assert(haystack@.take(i + 1).drop_last() =~= haystack@.take(i));
            assert(folded(haystack@.take(i + 1)) == before + lowered(c));
            folded_concat(haystack@.take(i + 1), haystack@.skip(i + 1));
            assert(haystack@.take(i + 1) + haystack@.skip(i + 1) =~= haystack@);
        }
        let ghost tail = folded(haystack@.skip(i + 1));
        let mut j: usize = 0;
        let mut next: char = first;
        assert(before =~= before + lowered(c).take(0));
        loop
            invariant_except_break
                seen == before + lowered(c).take(j as int),
                next == lowered(c)[j as int],
            invariant
                needle@.len() > 0,
                ring@.len() == needle@.len(),
                ring_shows(ring@, head as int, fill as int, seen),
                !occurs_in(needle@, seen),
                j <= rest@.len(),
                seq![first] + rest@ == lowered(c),
                folded(haystack@) == before + lowered(c) + tail,
            ensures
                seen == before + lowered(c),
            decreases rest@.len() - j,
        {
            let ghost was = seen;
            let matched = ring_step(ring, &mut head, &mut fill, next, needle, Ghost(was));
            proof {
                seen = was.push(next);
                assert(lowered(c).take(j + 1) =~= lowered(c).take(j as int).push(next));
                assert(seen =~= before + lowered(c).take(j + 1));
                last_step_decides(needle@, was, next);
            }
            if matched {
                proof {
                    let more = lowered(c).skip(j + 1) + tail;
                    assert(folded(haystack@) =~= seen + more);
                    occurs_in_extension(needle@, seen, more, seen.len() - needle@.len());
                }
                return true;
            }
            if j == rest.len() {
                assert(lowered(c).take(j + 1) =~= lowered(c));
                break;
            }
            next = rest[j];
            j = j + 1;
        }
    }
    assert(haystack@.take(haystack@.len() as int) =~= haystack@);
    false
}

/// One more character can add only an occurrence that ends at it.
proof fn last_step_decides(part: Seq<char>, seen: Seq<char>, c: char)
    requires
        !occurs_in(part, seen),
    ensures
        occurs_in(part, seen.push(c)) <==> occurs_at(
            part,
            seen.push(c),
            seen.len() + 1 - part.len(),
        ),
{
    let now = seen.push(c);
    if occurs_in(part, now) {
        let at = choose|at: int| occurs_at(part, now, at);
        if at + part.len() <= seen.len() {
            assert(seen.subrange(at, at + part.len()) =~= now.subrange(at, at + part.len()));
            assert(occurs_at(part, seen, at));
        }
    }
}

/// White space is what Unicode calls so: tabulator, line feed, vertical tabulator, form feed
/// and carriage return, the blank and the other blanks, and the separators of lines and
/// paragraphs.
pub proof fn white_space_is_that_of_unicode(c: char)
    ensures
        whitespace(c) <==> (c == '\t' || c == '\n' || c == '\u{b}' || c == '\u{c}' || c == '\r' || c
            == ' ' || c == '\u{85}' || c == '\u{a0}' || c == '\u{1680}' || c == '\u{2000}' || c
            == '\u{2001}' || c == '\u{2002}' || c == '\u{2003}' || c == '\u{2004}' || c
            == '\u{2005}' || c == '\u{2006}' || c == '\u{2007}' || c == '\u{2008}' || c
            == '\u{2009}' || c == '\u{200a}' || c == '\u{2028}' || c == '\u{2029}' || c
            == '\u{202f}' || c == '\u{205f}' || c == '\u{3000}'),
{
}

/// Trimming cuts white space off the two ends, as much as there is, and nothing else.
pub proof fn trimming_cuts_white_space_off(text: Seq<char>)
    ensures
        exists|a: int, b: int|
            0 <= a <= b <= text.len() && #[trigger] text.subrange(a, b) == trimmed(text) && (
            forall|k: int|
                0 <= k < text.len() && !(a <= k < b) ==> whitespace(#[trigger] text[k])),
        trimmed(text).len() > 0 ==> !whitespace(trimmed(text)[0]) && !whitespace(
            trimmed(text).last(),
        ),
        (exists|k: int| 0 <= k < text.len() && !whitespace(#[trigger] text[k])) ==> trimmed(
            text,
        ).len() > 0,
{
    let cut = |c: char| whitespace(c);
    stripping_cuts_the_ends(text, cut);
}

/// White space around a text is cut off and the text is left, whatever stands inside it.
pub proof fn trimming_leaves_the_core(front: Seq<char>, core: Seq<char>, back: Seq<char>)
    requires
        forall|k: int| 0 <= k < front.len() ==> whitespace(#[trigger] front[k]),
        forall|k: int| 0 <= k < back.len() ==> whitespace(#[trigger] back[k]),
        core.len() > 0,
        !whitespace(core[0]),
        !whitespace(core.last()),
    ensures
        trimmed(front + core + back) == core,
        trimmed(front).len() == 0,
{
    let text = front + core + back;
    trimming_cuts_white_space_off(text);
    trimming_cuts_white_space_off(front);
    let (a, b) = choose|a: int, b: int|
        0 <= a <= b <= text.len() && #[trigger] text.subrange(a, b) == trimmed(text) && (
        forall|k: int| 0 <= k < text.len() && !(a <= k < b) ==> whitespace(#[trigger] text[k]));
    let f = front.len() as int;
    let l = f + core.len() - 1;
    assert(text[f] == core[0]);
    assert(text[l] == core.last());
    if a < f {
        assert(trimmed(text)[0] == text[a]);
        assert(text[a] == front[a]);
    }
    if b > l + 1 {
        assert(trimmed(text).last() == text[b - 1]);
        assert(text[b - 1] == back[b - 1 - l - 1]);
    }
    assert(text.subrange(f, l + 1) =~= core);
    let (x, y) = choose|x: int, y: int|
        0 <= x <= y <= front.len() && #[trigger] front.subrange(x, y) == trimmed(front) && (
        forall|k: int| 0 <= k < front.len() && !(x <= k < y) ==> whitespace(#[trigger] front[k]));
    if trimmed(front).len() > 0 {
        assert(trimmed(front)[0] == front[x]);
    }
}

/// Double quotes around a text are cut off and the text is left.
pub proof fn unquoting_leaves_the_core(front: Seq<char>, core: Seq<char>, back: Seq<char>)
    requires
        forall|k: int| 0 <= k < front.len() ==> #[trigger] front[k] == '"',
        forall|k: int| 0 <= k < back.len() ==> #[trigger] back[k] == '"',
        core.len() > 0,
        core[0] != '"',
        core.last() != '"',
    ensures
        unquoted(front + core + back) == core,
{
    let text = front + core + back;
    unquoting_cuts_quotes_off(text);
    let (a, b) = choose|a: int, b: int|
        0 <= a <= b <= text.len() && #[trigger] text.subrange(a, b) == unquoted(text) && (
        forall|k: int| 0 <= k < text.len() && !(a <= k < b) ==> #[trigger] text[k] == '"');
    let f = front.len() as int;
    let l = f + core.len() - 1;
    assert(text[f] == core[0]);
    assert(text[l] == core.last());
    if a < f {
        assert(unquoted(text)[0] == text[a]);
        assert(text[a] == front[a]);
    }
    if b > l + 1 {
        assert(unquoted(text).last() == text[b - 1]);
        assert(text[b - 1] == back[b - 1 - l - 1]);
    }
    assert(text.subrange(f, l + 1) =~= core);
}

/// Unquoting cuts double quotes off the two ends, as many as there are, and nothing else.
pub proof fn unquoting_cuts_quotes_off(text: Seq<char>)
    ensures
        exists|a: int, b: int|
            0 <= a <= b <= text.len() && #[trigger] text.subrange(a, b) == unquoted(text) && (
            forall|k: int| 0 <= k < text.len() && !(a <= k < b) ==> #[trigger] text[k] == '"'),
        unquoted(text).len() > 0 ==> unquoted(text)[0] != '"' && unquoted(text).last() != '"',
{
    let cut = |c: char| c == '"';
    stripping_cuts_the_ends(text, cut);
    let (a, b) = choose|a: int, b: int|
        0 <= a <= b <= text.len() && #[trigger] text.subrange(a, b) == stripped(text, cut) && (
        forall|k: int| 0 <= k < text.len() && !(a <= k < b) ==> cut(#[trigger] text[k]));
    assert(text.subrange(a, b) == unquoted(text));
    assert forall|k: int| 0 <= k < text.len() && !(a <= k < b) implies #[trigger] text[k] == '"' by {
        assert(cut(text[k]));
    }
}

proof fn stripping_cuts_the_ends(text: Seq<char>, cut: spec_fn(char) -> bool)
    ensures
        exists|a: int, b: int|
            0 <= a <= b <= text.len() && #[trigger] text.subrange(a, b) == stripped(text, cut) && (
            forall|k: int| 0 <= k < text.len() && !(a <= k < b) ==> cut(#[trigger] text[k])),
        stripped(text, cut).len() > 0 ==> !cut(stripped(text, cut)[0]) && !cut(
            stripped(text, cut).last(),
        ),
        (exists|k: int| 0 <= k < text.len() && !cut(#[trigger] text[k])) ==> stripped(
            text,
            cut,
        ).len() > 0,
{
    let front = without_prefix(text, cut);
    let part = stripped(text, cut);
    without_prefix_is_a_tail(text, cut);
    without_suffix_is_a_head(front, cut);
    cut_prefix_is_cut(text, cut);
    cut_suffix_is_cut(front, cut);
    let a = text.len() - front.len();
    let b = a + part.len();
    assert(text.subrange(a, b) =~= part);
    assert forall|k: int| 0 <= k < text.len() && !(a <= k < b) implies cut(#[trigger] text[k]) by {
        if k >= b {
            assert(front[k - a] == text[k]);
        }
    }
    if part.len() > 0 {
        assert(part[0] == front[0]);
    }
    if exists|k: int| 0 <= k < text.len() && !cut(#[trigger] text[k]) {
        let k = choose|k: int| 0 <= k < text.len() && !cut(#[trigger] text[k]);
        assert(a <= k < b);
    }
}

proof fn cut_prefix_is_cut(text: Seq<char>, cut: spec_fn(char) -> bool)
    ensures
        forall|k: int|
            0 <= k < text.len() - without_prefix(text, cut).len() ==> cut(#[trigger] text[k]),
    decreases text.len(),
{
    if text.len() > 0 && cut(text[0]) {
        let rest = text.drop_first();
        cut_prefix_is_cut(rest, cut);
        without_prefix_is_a_tail(rest, cut);
        assert forall|k: int|
            0 <= k < text.len() - without_prefix(text, cut).len() implies cut(#[trigger] text[k]) by {
            if k > 0 {
                assert(rest[k - 1] == text[k]);
            }
        }
    }
}

proof fn cut_suffix_is_cut(text: Seq<char>, cut: spec_fn(char) -> bool)
    ensures
        forall|k: int|
            without_suffix(text, cut).len() <= k < text.len() ==> cut(#[trigger] text[k]),
    decreases text.len(),
{
    if text.len() > 0 && cut(text.last()) {
        let rest = text.drop_last();
        cut_suffix_is_cut(rest, cut);
        assert forall|k: int|
            without_suffix(text, cut).len() <= k < text.len() implies cut(#[trigger] text[k]) by {
            if k < rest.len() {
                assert(rest[k] == text[k]);
            }
        }
    }
}

/// Folding works character by character.
pub proof fn folding_works_by_characters(text: Seq<char>, c: char)
    ensures
        folded(Seq::<char>::empty()).len() == 0,
        folded(seq![c]) == lowered(c),
        folded(text + seq![c]) == folded(text) + lowered(c),
        folded(seq![c] + text) == lowered(c) + folded(text),
{
    reveal_with_fuel(folded, 2);
    assert(seq![c].drop_last() =~= Seq::empty());
    assert(Seq::<char>::empty() + lowered(c) =~= lowered(c));
    folded_concat(text, seq![c]);
    folded_concat(seq![c], text);
}

/// A part occurs in a whole where the characters of the whole from some place on are its.
pub proof fn occurrences_are_found(part: Seq<char>, whole: Seq<char>, at: int)
    ensures
        0 <= at <= whole.len() - part.len() && (forall|k: int|
            0 <= k < part.len() ==> whole[at + k] == #[trigger] part[k]) ==> occurs_in(part, whole),
        occurs_in(part, whole) ==> exists|p: int|
            0 <= p <= whole.len() - part.len() && #[trigger] whole.subrange(p, p + part.len())
                == part,
        occurs_in(Seq::<char>::empty(), whole),
{
    if 0 <= at <= whole.len() - part.len() && (forall|k: int|
        0 <= k < part.len() ==> whole[at + k] == #[trigger] part[k]) {
        assert(whole.subrange(at, at + part.len()) =~= part);
        assert(occurs_at(part, whole, at));
    }
    if occurs_in(part, whole) {
        let p = choose|p: int| occurs_at(part, whole, p);
        assert(whole.subrange(p, p + part.len()) == part);
    }
    assert(whole.subrange(0, 0) =~= Seq::<char>::empty());
    assert(occurs_at(Seq::<char>::empty(), whole, 0));
}

/// A text begins with its own beginnings, ends with its own ends, and with nothing else.
pub proof fn beginnings_and_ends(text: Seq<char>, part: Seq<char>, rest: Seq<char>)
    ensures
        begins(part + rest, part),
        ends(rest + part, part),
        begins(text, part) ==> text == part + text.skip(part.len() as int),
        ends(text, part) ==> text == text.take(text.len() - part.len()) + part,
{
    assert((part + rest).take(part.len() as int) =~= part);
    assert((rest + part).skip(rest.len() as int) =~= part);
    if begins(text, part) {
        assert(text =~= part + text.skip(part.len() as int));
    }
    if ends(text, part) {
        assert(text =~= text.take(text.len() - part.len()) + part);
    }
}

/// In the ASCII lower case of a text the 26 capital letters have become small ones, and
/// every other character is as it was.
pub proof fn ascii_lower_case_changes_capitals_only(text: Seq<char>, i: int)
    requires
        0 <= i < text.len(),
    ensures
        ascii_folded(text).len() == text.len(),
        'A' <= text[i] <= 'Z' ==> ascii_folded(text)[i] as u32 == text[i] as u32 + 32,
        !('A' <= text[i] <= 'Z') ==> ascii_folded(text)[i] == text[i],
{
}

} // verus!
