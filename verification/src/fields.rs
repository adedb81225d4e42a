//! Lines of text taken apart, and put together.

use vstd::prelude::*;

use crate::digits::push_text;
use crate::text::{chars_of, is_whitespace, string_of, whitespace};

verus! {

/// Where `separator` first stands in `text`; its length where it does not.
pub open spec fn position(text: Seq<char>, separator: char) -> int
    decreases text.len(),
{
    if text.len() == 0 || text[0] == separator {
        0
    } else {
        1 + position(text.drop_first(), separator)
    }
}

pub proof fn position_is_inside(text: Seq<char>, separator: char)
    ensures
        0 <= position(text, separator) <= text.len(),
    decreases text.len(),
{
    if text.len() > 0 && text[0] != separator {
        position_is_inside(text.drop_first(), separator);
    }
}

/// A separator behind a text that has none in it is found there.
pub proof fn separator_is_found(before: Seq<char>, separator: char, after: Seq<char>)
    requires
        forall|i: int| 0 <= i < before.len() ==> #[trigger] before[i] != separator,
    ensures
        position(before + seq![separator] + after, separator) == before.len(),
    decreases before.len(),
{
    let text = before + seq![separator] + after;
    if before.len() > 0 {
        assert(text[0] == before[0]);
        assert(text.drop_first() =~= before.drop_first() + seq![separator] + after);
        assert forall|i: int| 0 <= i < before.drop_first().len() implies #[trigger]
            before.drop_first()[i] != separator by {
            assert(before[i + 1] != separator);
        }
        separator_is_found(before.drop_first(), separator, after);
    }
}

/// No separator is found where there is none.
pub proof fn no_separator(text: Seq<char>, separator: char)
    requires
        forall|i: int| 0 <= i < text.len() ==> #[trigger] text[i] != separator,
    ensures
        position(text, separator) == text.len(),
    decreases text.len(),
{
    if text.len() > 0 {
        assert forall|i: int| 0 <= i < text.drop_first().len() implies #[trigger]
            text.drop_first()[i] != separator by {
            assert(text[i + 1] != separator);
        }
        no_separator(text.drop_first(), separator);
    }
}

/// The fields between the separators, at most `count` of them. The last one takes all
/// that is left.
pub open spec fn split(text: Seq<char>, separator: char, count: nat) -> Seq<Seq<char>>
    decreases count,
{
    let at = position(text, separator);
    if count <= 1 || at >= text.len() {
        seq![text]
    } else {
        seq![text.take(at)] + split(text.skip(at + 1), separator, (count - 1) as nat)
    }
}

/// The texts that strings hold.
pub open spec fn texts(strings: Seq<String>) -> Seq<Seq<char>> {
    strings.map_values(|s: String| s@)
}

/// A field by its number; nothing where there are fewer.
pub open spec fn field(fields: Seq<Seq<char>>, i: int) -> Seq<char> {
    if 0 <= i < fields.len() {
        fields[i]
    } else {
        Seq::empty()
    }
}

/// Where the first whitespace stands in `text`; its length where there is none.
pub open spec fn word_end(text: Seq<char>) -> int
    decreases text.len(),
{
    if text.len() == 0 || whitespace(text[0]) {
        0
    } else {
        1 + word_end(text.drop_first())
    }
}

proof fn word_end_is_inside(text: Seq<char>)
    ensures
        0 <= word_end(text) <= text.len(),
    decreases text.len(),
{
    if text.len() > 0 && !whitespace(text[0]) {
        word_end_is_inside(text.drop_first());
    }
}

/// The words of a text: the runs of characters that are not whitespace.
pub open spec fn words(text: Seq<char>) -> Seq<Seq<char>>
    decreases text.len(),
    via words_get_shorter
{
    if text.len() == 0 {
        Seq::empty()
    } else if whitespace(text[0]) {
        words(text.drop_first())
    } else {
        seq![text.take(word_end(text))] + words(text.skip(word_end(text)))
    }
}

#[via_fn]
proof fn words_get_shorter(text: Seq<char>) {
    if text.len() > 0 && !whitespace(text[0]) {
        word_end_is_inside(text.drop_first());
    }
}

/// Texts in a row, with `separator` between them.
pub open spec fn joined(parts: Seq<Seq<char>>, separator: Seq<char>) -> Seq<char>
    decreases parts.len(),
{
    if parts.len() == 0 {
        Seq::empty()
    } else if parts.len() == 1 {
        parts[0]
    } else {
        joined(parts.drop_last(), separator) + separator + parts.last()
    }
}

fn slice_of(chars: &Vec<char>, from: usize, to: usize) -> (r: Vec<char>)
    requires
        from <= to <= chars@.len(),
    ensures
        r@ == chars@.subrange(from as int, to as int),
{
    let mut out: Vec<char> = Vec::new();
    let mut i: usize = from;
    while i < to
        invariant
            from <= i <= to <= chars@.len(),
            out@ == chars@.subrange(from as int, i as int),
        decreases to - i,
    {
        out.push(chars[i]);
        i = i + 1;
        assert(out@ =~= chars@.subrange(from as int, i as int));
    }
    out
}

fn position_from(chars: &Vec<char>, from: usize, separator: char) -> (r: usize)
    requires
        from <= chars@.len(),
    ensures
        from <= r <= chars@.len(),
        r - from == position(chars@.skip(from as int), separator),
{
    let mut i: usize = from;
    while i < chars.len() && chars[i] != separator
        invariant
            from <= i <= chars@.len(),
            position(chars@.skip(from as int), separator) == i - from + position(
                chars@.skip(i as int),
                separator,
            ),
        decreases chars@.len() - i,
    {
        assert(chars@.skip(i as int).drop_first() =~= chars@.skip(i + 1));
        i = i + 1;
    }
    i
}

fn split_from(chars: &Vec<char>, from: usize, separator: char, count: usize) -> (r: Vec<String>)
    requires
        from <= chars@.len(),
    ensures
        texts(r@) == split(chars@.skip(from as int), separator, count as nat),
{
    let mut out: Vec<String> = Vec::new();
    let mut start: usize = from;
    let mut left: usize = count;
    let mut at: usize = position_from(chars, start, separator);
    let ghost all = split(chars@.skip(from as int), separator, count as nat);
    assert(texts(out@) =~= Seq::empty());
    while left > 1 && at < chars.len()
        invariant
            start <= at <= chars@.len(),
            at - start == position(chars@.skip(start as int), separator),
            all == texts(out@) + split(chars@.skip(start as int), separator, left as nat),
        decreases left,
    {
        let ghost rest = chars@.skip(start as int);
        let ghost before = texts(out@);
        assert(rest.take(at - start) =~= chars@.subrange(start as int, at as int));
        out.push(string_of(slice_of(chars, start, at)));
        assert(texts(out@) =~= before.push(rest.take(at - start)));
        assert(rest.skip(at - start + 1) =~= chars@.skip(at + 1));
        start = at + 1;
        left = left - 1;
        assert(all =~= texts(out@) + split(chars@.skip(start as int), separator, left as nat));
        at = position_from(chars, start, separator);
    }
    let ghost before = texts(out@);
    let ghost rest = chars@.skip(start as int);
    assert(rest =~= chars@.subrange(start as int, chars@.len() as int));
    out.push(string_of(slice_of(chars, start, chars.len())));
    assert(texts(out@) =~= before + seq![rest]);
    out
}

/// The fields of a text, at most `count`.
pub fn split_on(text: &str, separator: char, count: usize) -> (r: Vec<String>)
    ensures
        texts(r@) == split(text@, separator, count as nat),
{
    let chars = chars_of(text);
    assert(chars@.skip(0) =~= chars@);
    split_from(&chars, 0, separator, count)
}

fn word_end_from(chars: &Vec<char>, from: usize) -> (r: usize)
    requires
        from <= chars@.len(),
    ensures
        from <= r <= chars@.len(),
        r - from == word_end(chars@.skip(from as int)),
{
    let mut i: usize = from;
    while i < chars.len() && !is_whitespace(chars[i])
        invariant
            from <= i <= chars@.len(),
            word_end(chars@.skip(from as int)) == i - from + word_end(chars@.skip(i as int)),
        decreases chars@.len() - i,
    {
        assert(chars@.skip(i as int).drop_first() =~= chars@.skip(i + 1));
        i = i + 1;
    }
    i
}

/// The words of a text.
pub fn words_of(text: &str) -> (r: Vec<String>)
    ensures
        texts(r@) == words(text@),
{
    let chars = chars_of(text);
    let mut out: Vec<String> = Vec::new();
    let mut at: usize = 0;
    assert(chars@.skip(0) =~= text@);
    assert(texts(out@) =~= Seq::empty());
    assert(words(text@) =~= texts(out@) + words(chars@.skip(0)));
    while at < chars.len()
        invariant
            at <= chars@.len(),
            words(text@) == texts(out@) + words(chars@.skip(at as int)),
        decreases chars@.len() - at,
    {
        let ghost rest = chars@.skip(at as int);
        if is_whitespace(chars[at]) {
            assert(rest.drop_first() =~= chars@.skip(at + 1));
            at = at + 1;
        } else {
            let end: usize = word_end_from(&chars, at);
            let ghost before = texts(out@);
            proof {
                word_end_is_inside(rest.drop_first());
                assert(rest.take(end - at) =~= chars@.subrange(at as int, end as int));
                assert(rest.skip(end - at) =~= chars@.skip(end as int));
            }
            out.push(string_of(slice_of(&chars, at, end)));
            assert(texts(out@) =~= before.push(rest.take(end - at)));
            at = end;
            assert(words(text@) =~= texts(out@) + words(chars@.skip(at as int)));
        }
    }
    assert(chars@.skip(at as int) =~= Seq::empty());
    assert(words(text@) =~= texts(out@));
    out
}

/// Texts in a row, with `separator` between them.
pub fn join(parts: &Vec<String>, separator: &str) -> (r: String)
    ensures
        r@ == joined(texts(parts@), separator@),
{
    let mut out: Vec<char> = Vec::new();
    let mut i: usize = 0;
    while i < parts.len()
        invariant
            i <= parts@.len(),
            out@ == joined(texts(parts@).take(i as int), separator@),
        decreases parts@.len() - i,
    {
        let ghost next = texts(parts@).take(i + 1);
        assert(next.drop_last() =~= texts(parts@).take(i as int));
        if i > 0 {
            push_text(&mut out, separator);
        }
        push_text(&mut out, parts[i].as_str());
        assert(out@ =~= joined(next, separator@));
        i = i + 1;
    }
    assert(texts(parts@).take(i as int) =~= texts(parts@));
    string_of(out)
}

/// A separator is found at its first place: it stands there, and nowhere before.
pub proof fn separators_are_found_at_their_first_place(text: Seq<char>, separator: char)
    ensures
        position(text, separator) < text.len() ==> text[position(text, separator)] == separator,
        forall|i: int|
            0 <= i < position(text, separator) ==> #[trigger] text[i] != separator,
        0 <= position(text, separator) <= text.len(),
    decreases text.len(),
{
    if text.len() > 0 && text[0] != separator {
        let rest = text.drop_first();
        separators_are_found_at_their_first_place(rest, separator);
        assert forall|i: int| 0 <= i < position(text, separator) implies #[trigger] text[i]
            != separator by {
            if i > 0 {
                assert(rest[i - 1] == text[i]);
            }
        }
    }
}

/// Fields are what stands between the separators: with a separator between them they make up
/// the text again, there are at most as many as were asked for, and only the last can hold a
/// separator, where there are as many as that.
pub proof fn fields_make_up_the_text(text: Seq<char>, separator: char, count: nat)
    ensures
        joined(split(text, separator, count), seq![separator]) == text,
        0 < split(text, separator, count).len() <= if count > 0 {
            count
        } else {
            1
        },
        forall|i: int, j: int|
            0 <= i < split(text, separator, count).len() - 1 && 0 <= j < split(
                text,
                separator,
                count,
            )[i].len() ==> #[trigger] split(text, separator, count)[i][j] != separator,
        split(text, separator, count).len() < count ==> forall|j: int|
            0 <= j < split(text, separator, count).last().len() ==> #[trigger] split(
                text,
                separator,
                count,
            ).last()[j] != separator,
    decreases count,
{
    let at = position(text, separator);
    let parts = split(text, separator, count);
    separators_are_found_at_their_first_place(text, separator);
    if count <= 1 || at >= text.len() {
        assert(parts =~= seq![text]);
    } else {
        let rest = text.skip(at + 1);
        let more = split(rest, separator, (count - 1) as nat);
        fields_make_up_the_text(rest, separator, (count - 1) as nat);
        assert(parts =~= seq![text.take(at)] + more);
        joined_from_the_front(text.take(at), more, seq![separator]);
        assert(text =~= text.take(at) + seq![separator] + rest);
        assert forall|i: int, j: int|
            0 <= i < parts.len() - 1 && 0 <= j < parts[i].len() implies #[trigger] parts[i][j]
            != separator by {
            if i > 0 {
                assert(parts[i] == more[i - 1]);
                assert(more[i - 1][j] != separator);
            } else {
                assert(parts[0][j] == text[j]);
            }
        }
        assert(parts.last() == more.last());
    }
}

proof fn joined_from_the_front(first: Seq<char>, rest: Seq<Seq<char>>, separator: Seq<char>)
    requires
        rest.len() > 0,
    ensures
        joined(seq![first] + rest, separator) == first + separator + joined(rest, separator),
    decreases rest.len(),
{
    let all = seq![first] + rest;
    if rest.len() == 1 {
        reveal_with_fuel(joined, 3);
        assert(all.drop_last() =~= seq![first]);
        assert(all.last() == rest[0]);
        assert(joined(seq![first], separator) == first);
    } else {
        let fewer = rest.drop_last();
        joined_from_the_front(first, fewer, separator);
        assert(all.drop_last() =~= seq![first] + fewer);
        assert(all.last() == rest.last());
        assert(joined(all, separator) =~= first + separator + joined(rest, separator));
    }
}

/// Texts are put together with the separator between them, and only there.
pub proof fn texts_are_joined_one_by_one(
    parts: Seq<Seq<char>>,
    part: Seq<char>,
    separator: Seq<char>,
)
    ensures
        joined(Seq::<Seq<char>>::empty(), separator).len() == 0,
        joined(seq![part], separator) == part,
        parts.len() > 0 ==> joined(parts.push(part), separator) == joined(parts, separator)
            + separator + part,
{
    assert(parts.push(part).drop_last() =~= parts);
}

/// A field is the one with its number; where there are fewer it is empty.
pub proof fn fields_have_numbers(fields: Seq<Seq<char>>, i: int)
    ensures
        0 <= i < fields.len() ==> field(fields, i) == fields[i],
        i >= fields.len() ==> field(fields, i).len() == 0,
{
}

/// Words are what white space parts: a word in front of white space is the first, leading
/// white space makes no difference, and a text of white space alone has none.
pub proof fn words_are_parted_by_white_space(word: Seq<char>, blank: char, rest: Seq<char>)
    requires
        whitespace(blank),
        word.len() > 0,
        forall|i: int| 0 <= i < word.len() ==> !whitespace(#[trigger] word[i]),
    ensures
        words(word + seq![blank] + rest) == seq![word] + words(rest),
        words(seq![blank] + rest) == words(rest),
        words(word) == seq![word],
        words(Seq::<char>::empty()).len() == 0,
{
    let text = word + seq![blank] + rest;
    word_ends_at_white_space(word, seq![blank] + rest);
    assert(text =~= word + (seq![blank] + rest));
    assert(text[0] == word[0]);
    assert(text.take(word.len() as int) =~= word);
    assert(text.skip(word.len() as int) =~= seq![blank] + rest);
    assert((seq![blank] + rest).drop_first() =~= rest);
    assert((seq![blank] + rest)[0] == blank);
    assert(words(seq![blank] + rest) == words(rest));
    assert(words(text) == seq![text.take(word_end(text))] + words(text.skip(word_end(text))));
    word_ends_at_white_space(word, Seq::<char>::empty());
    assert(word + Seq::<char>::empty() =~= word);
    assert(word.take(word.len() as int) =~= word);
    assert(word.skip(word.len() as int) =~= Seq::<char>::empty());
    assert(words(Seq::<char>::empty()) =~= Seq::<Seq<char>>::empty());
    assert(words(word) =~= seq![word]);
}

proof fn word_ends_at_white_space(word: Seq<char>, rest: Seq<char>)
    requires
        forall|i: int| 0 <= i < word.len() ==> !whitespace(#[trigger] word[i]),
        rest.len() > 0 ==> whitespace(rest[0]),
    ensures
        word_end(word + rest) == word.len(),
    decreases word.len(),
{
    let text = word + rest;
    if word.len() > 0 {
        assert(text[0] == word[0]);
        assert(text.drop_first() =~= word.drop_first() + rest);
        assert forall|i: int| 0 <= i < word.drop_first().len() implies !whitespace(
            #[trigger] word.drop_first()[i],
        ) by {
            assert(!whitespace(word[i + 1]));
        }
        word_ends_at_white_space(word.drop_first(), rest);
    } else {
        assert(text =~= rest);
    }
}

/// The texts of strings are those that the strings hold, in their order.
pub proof fn texts_are_those_of_the_strings(strings: Seq<String>, i: int)
    ensures
        texts(strings).len() == strings.len(),
        0 <= i < strings.len() ==> texts(strings)[i] == strings[i]@,
{
}

} // verus!
