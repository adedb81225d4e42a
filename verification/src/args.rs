//! The command line.

use vstd::prelude::*;

use crate::digits::{parse_u64, parsed};
use crate::fields::{join, joined, texts};
use crate::text::{begins, same_text, starts_with, strip_prefix, trim, trim_quotes, trimmed, unquoted};
#[allow(unused_imports)]
use crate::text::{
    trimming_cuts_white_space_off, trimming_leaves_the_core, unquoting_cuts_quotes_off,
    unquoting_leaves_the_core, whitespace,
};

verus! {

/// A path as it was meant: without blanks around it, nor quotes that were put round it by
/// hand. A path of nothing else is none.
pub open spec fn cleaned(value: Seq<char>) -> Option<Seq<char>> {
    let path = trimmed(unquoted(trimmed(value)));
    if path.len() == 0 {
        None
    } else {
        Some(path)
    }
}

/// The first flag among the arguments from `i` on; their number where there is none.
pub open spec fn next_flag(args: Seq<Seq<char>>, i: int) -> int
    decreases args.len() - i,
{
    if i >= args.len() {
        i
    } else if begins(args[i], "--"@) {
        i
    } else {
        next_flag(args, i + 1)
    }
}

/// The library that the arguments from `i` on ask for. The first `--library-root` counts. A
/// path that blanks have torn into several arguments is put together again, up to the next
/// flag.
pub open spec fn library_root(args: Seq<Seq<char>>, i: int) -> Option<Seq<char>>
    decreases args.len() - i,
{
    if i >= args.len() {
        None
    } else if begins(args[i], "--library-root="@) {
        cleaned(args[i].skip("--library-root="@.len() as int))
    } else if args[i] == "--library-root"@ {
        let end = next_flag(args, i + 1);
        if end == i + 1 {
            None
        } else {
            cleaned(joined(args.subrange(i + 1, end), " "@))
        }
    } else {
        library_root(args, i + 1)
    }
}

/// A path as it was meant, where there is one.
pub fn normalize_library_root_value(value: &str) -> (r: Option<String>)
    ensures
        match r {
            Some(path) => cleaned(value@) == Some(path@),
            None => cleaned(value@) is None,
        },
{
    let path = trim(trim_quotes(trim(value)));
    if path.unicode_len() == 0 {
        None
    } else {
        Some(path.to_owned())
    }
}

/// The library that the command line asks for with `--library-root`.
pub fn parse_library_root(args: &[String]) -> (r: Option<String>)
    ensures
        match r {
            Some(root) => library_root(texts(args@), 0) == Some(root@),
            None => library_root(texts(args@), 0) is None,
        },
{
    let ghost all = texts(args@);
    let mut i: usize = 0;
    while i < args.len()
        invariant
            i <= args@.len(),
            all == texts(args@),
            library_root(all, 0) == library_root(all, i as int),
        decreases args@.len() - i,
    {
        let arg = args[i].as_str();
        assert(arg@ == all[i as int]);
        if let Some(value) = strip_prefix(arg, "--library-root=") {
            return normalize_library_root_value(value);
        }
        if same_text(arg, "--library-root") {
            let mut value: Vec<String> = Vec::new();
            let mut end: usize = i + 1;
            assert(texts(value@) =~= all.subrange(i + 1, end as int));
            while end < args.len() && !starts_with(args[end].as_str(), "--")
                invariant
                    i < end <= args@.len(),
                    all == texts(args@),
                    texts(value@) == all.subrange(i + 1, end as int),
                    next_flag(all, i + 1) == next_flag(all, end as int),
                decreases args@.len() - end,
            {
                let ghost before = value@;
                value.push(args[end].clone());
                assert(texts(value@) =~= texts(before).push(all[end as int]));
                end = end + 1;
                assert(texts(value@) =~= all.subrange(i + 1, end as int));
            }
            if end == i + 1 {
                return None;
            }
            let path = join(&value, " ");
            return normalize_library_root_value(path.as_str());
        }
        i = i + 1;
    }
    None
}

/// How long a benchmark stays where it is, if it is not told.
pub const BENCH_DEFAULT_HOLD_MS: u64 = 8_000;

/// What a benchmark is to do.
#[derive(Debug, Clone, PartialEq, Eq)]
pub struct BenchArgs {
    pub root: String,
    pub hold_ms: u64,
}

/// Whether a benchmark is asked for. One without a library is never taken for an ordinary
/// start.
#[derive(Debug, Clone, PartialEq, Eq)]
pub enum BenchCommand {
    NotAsked,
    RootMissing,
    Run { bench: BenchArgs },
}

/// The place of the first argument `flag` from `i` on; their number where there is none.
pub open spec fn flag_at(args: Seq<Seq<char>>, flag: Seq<char>, i: int) -> int
    decreases args.len() - i,
{
    if i >= args.len() || args[i] == flag {
        i
    } else {
        flag_at(args, flag, i + 1)
    }
}

/// The argument behind the first `flag`.
pub open spec fn value_of(args: Seq<Seq<char>>, flag: Seq<char>) -> Option<Seq<char>> {
    let at = flag_at(args, flag, 0);
    if at + 1 < args.len() {
        Some(args[at + 1])
    } else {
        None
    }
}

/// How long a benchmark is to stay where it is.
pub open spec fn hold_time(args: Seq<Seq<char>>) -> int {
    match value_of(args, "--bench-hold-ms"@) {
        Some(value) => match parsed(value, u64::MAX as int) {
            Some(ms) => ms,
            None => BENCH_DEFAULT_HOLD_MS as int,
        },
        None => BENCH_DEFAULT_HOLD_MS as int,
    }
}

fn find_flag(args: &[String], flag: &str) -> (r: usize)
    ensures
        r == flag_at(texts(args@), flag@, 0),
        r <= args@.len(),
{
    let ghost all = texts(args@);
    let mut i: usize = 0;
    while i < args.len() && !same_text(args[i].as_str(), flag)
        invariant
            i <= args@.len(),
            all == texts(args@),
            flag_at(all, flag@, 0) == flag_at(all, flag@, i as int),
        decreases args@.len() - i,
    {
        i = i + 1;
    }
    i
}

/// The benchmark that the command line asks for with `--bench`.
pub fn parse_bench_args(args: &[String]) -> (r: BenchCommand)
    ensures
        (r is NotAsked) == (flag_at(texts(args@), "--bench"@, 0) == args@.len()),
        match r {
            BenchCommand::Run { bench } => {
                &&& value_of(texts(args@), "--bench"@) == Some(bench.root@)
                &&& bench.root@.len() > 0
                &&& !begins(bench.root@, "--"@)
                &&& bench.hold_ms == hold_time(texts(args@))
            },
            BenchCommand::RootMissing => match value_of(texts(args@), "--bench"@) {
                Some(value) => value.len() == 0 || begins(value, "--"@),
                None => true,
            },
            BenchCommand::NotAsked => true,
        },
{
    let at: usize = find_flag(args, "--bench");
    if at == args.len() {
        return BenchCommand::NotAsked;
    }
    if at + 1 >= args.len() {
        return BenchCommand::RootMissing;
    }
    let root = args[at + 1].as_str();
    assert(root@ == texts(args@)[at + 1]);
    if root.unicode_len() == 0 || starts_with(root, "--") {
        return BenchCommand::RootMissing;
    }
    let hold: usize = find_flag(args, "--bench-hold-ms");
    let hold_ms: u64 = if hold < args.len() && hold + 1 < args.len() {
        assert(args@[hold + 1]@ == texts(args@)[hold + 1]);
        match parse_u64(args[hold + 1].as_str()) {
            Some(ms) => ms,
            None => BENCH_DEFAULT_HOLD_MS,
        }
    } else {
        BENCH_DEFAULT_HOLD_MS
    };
    BenchCommand::Run { bench: BenchArgs { root: root.to_owned(), hold_ms } }
}

/// A path that was torn apart at its blanks is read as if it had not been, whatever stands
/// before it and whatever flag follows it.
pub proof fn torn_paths_are_mended(
    before: Seq<Seq<char>>,
    pieces: Seq<Seq<char>>,
    after: Seq<Seq<char>>,
)
    requires
        pieces.len() > 0,
        forall|i: int| 0 <= i < pieces.len() ==> !begins(#[trigger] pieces[i], "--"@),
        after.len() > 0 ==> begins(after[0], "--"@),
        forall|i: int|
            0 <= i < before.len() ==> !begins(#[trigger] before[i], "--library-root="@)
                && before[i] != "--library-root"@,
    ensures
        library_root(before + seq!["--library-root"@] + pieces + after, 0) == library_root(
            before + seq!["--library-root"@] + seq![joined(pieces, " "@)] + after,
            0,
        ),
        library_root(before + seq!["--library-root"@] + pieces + after, 0) == cleaned(
            joined(pieces, " "@),
        ),
{
    let head = before + seq!["--library-root"@];
    let whole = seq![joined(pieces, " "@)];
    let torn = head + pieces + after;
    let mended = head + whole + after;
    flag_does_not_begin_with_equals();
    joining_makes_no_flag(pieces);
    assert(torn.take(before.len() as int) =~= before);
    assert(mended.take(before.len() as int) =~= before);
    skips_other_arguments(before, torn, 0);
    skips_other_arguments(before, mended, 0);
    let k = before.len() as int;
    assert(torn[k] == "--library-root"@);
    assert(mended[k] == "--library-root"@);
    let torn_end = k + 1 + pieces.len();
    assert forall|j: int| k + 1 <= j < torn_end implies !begins(#[trigger] torn[j], "--"@) by {
        assert(torn[j] == pieces[j - k - 1]);
    }
    assert(after.len() > 0 ==> torn[torn_end] == after[0]);
    assert(after.len() > 0 ==> mended[k + 2] == after[0]);
    assert(mended[k + 1] == whole[0]);
    next_flag_is_at(torn, k + 1, torn_end);
    next_flag_is_at(mended, k + 1, k + 2);
    assert(torn.subrange(k + 1, torn_end) =~= pieces);
    assert(mended.subrange(k + 1, k + 2) =~= whole);
    assert(joined(whole, " "@) == whole[0]);
}

/// Pieces of which none is a flag are none when they are put together.
proof fn joining_makes_no_flag(pieces: Seq<Seq<char>>)
    requires
        pieces.len() > 0,
        !begins(pieces[0], "--"@),
    ensures
        !begins(joined(pieces, " "@), "--"@),
    decreases pieces.len(),
{
    reveal_strlit("--");
    reveal_strlit(" ");
    if pieces.len() > 1 {
        let shorter = pieces.drop_last();
        joining_makes_no_flag(shorter);
        let start = joined(shorter, " "@);
        let all = joined(pieces, " "@);
        assert(all == start + " "@ + pieces.last());
        if begins(all, "--"@) {
            assert(all.take(2)[0] == '-' && all.take(2)[1] == '-');
            assert(all[0] == '-' && all[1] == '-');
            if start.len() >= 2 {
                assert(start.take(2) =~= "--"@);
            } else {
                assert(all[start.len() as int] == ' ');
            }
        }
    }
}

proof fn flag_does_not_begin_with_equals()
    ensures
        !begins("--library-root"@, "--library-root="@),
{
    reveal_strlit("--library-root");
    reveal_strlit("--library-root=");
}

proof fn skips_other_arguments(before: Seq<Seq<char>>, args: Seq<Seq<char>>, i: int)
    requires
        0 <= i <= before.len() <= args.len(),
        args.take(before.len() as int) == before,
        forall|i: int|
            0 <= i < before.len() ==> !begins(#[trigger] before[i], "--library-root="@)
                && before[i] != "--library-root"@,
    ensures
        library_root(args, i) == library_root(args, before.len() as int),
    decreases before.len() - i,
{
    if i < before.len() {
        assert(args[i] == before[i]);
        skips_other_arguments(before, args, i + 1);
    }
}

proof fn next_flag_is_at(args: Seq<Seq<char>>, i: int, end: int)
    requires
        0 <= i <= end <= args.len(),
        forall|j: int| i <= j < end ==> !begins(#[trigger] args[j], "--"@),
        end < args.len() ==> begins(args[end], "--"@),
    ensures
        next_flag(args, i) == end,
    decreases end - i,
{
    if i < end {
        next_flag_is_at(args, i + 1, end);
    }
}

/// A path is taken without white space around it and without quotes, put there by hand, inside
/// of that; a path of nothing else is none.
pub proof fn paths_are_taken_without_quotes(
    front: Seq<char>,
    path: Seq<char>,
    back: Seq<char>,
    opening: Seq<char>,
    closing: Seq<char>,
)
    requires
        forall|k: int| 0 <= k < front.len() ==> whitespace(#[trigger] front[k]),
        forall|k: int| 0 <= k < back.len() ==> whitespace(#[trigger] back[k]),
        forall|k: int| 0 <= k < opening.len() ==> #[trigger] opening[k] == '"',
        forall|k: int| 0 <= k < closing.len() ==> #[trigger] closing[k] == '"',
        path.len() > 0,
        !whitespace(path[0]) && path[0] != '"',
        !whitespace(path.last()) && path.last() != '"',
    ensures
        cleaned(front + (opening + path + closing) + back) == Some(path),
        cleaned(front) is None,
        cleaned(Seq::<char>::empty()) is None,
{
    let inner = opening + path + closing;
    assert(inner[0] == if opening.len() > 0 {
        opening[0]
    } else {
        path[0]
    });
    assert(inner.last() == if closing.len() > 0 {
        closing[closing.len() - 1]
    } else {
        path.last()
    });
    trimming_leaves_the_core(front, inner, back);
    unquoting_leaves_the_core(opening, path, closing);
    let nothing = Seq::<char>::empty();
    trimming_leaves_the_core(nothing, path, nothing);
    assert(nothing + path + nothing =~= path);
    assert(trimmed(front) =~= nothing);
    unquoting_cuts_quotes_off(nothing);
    assert(unquoted(nothing) =~= nothing);
    assert(trimmed(nothing) =~= nothing) by {
        trimming_cuts_white_space_off(nothing);
    }
}

/// `--library-root=` takes what follows it; without either flag there is no library; and a flag
/// with nothing behind it, or with another flag, names none.
pub proof fn the_first_library_root_counts(
    before: Seq<Seq<char>>,
    value: Seq<char>,
    after: Seq<Seq<char>>,
)
    requires
        forall|i: int|
            0 <= i < before.len() ==> !begins(#[trigger] before[i], "--library-root="@)
                && before[i] != "--library-root"@,
    ensures
        library_root(before, 0) is None,
        library_root(before + seq!["--library-root="@ + value] + after, 0) == cleaned(value),
        after.len() == 0 || begins(after[0], "--"@) ==> library_root(
            before + seq!["--library-root"@] + after,
            0,
        ) is None,
{
    let k = before.len() as int;
    assert(before.take(k) =~= before);
    skips_other_arguments(before, before, 0);
    let given = "--library-root="@ + value;
    let args = before + seq![given] + after;
    assert(args.take(k) =~= before);
    skips_other_arguments(before, args, 0);
    assert(args[k] == given);
    crate::text::beginnings_and_ends(given, "--library-root="@, value);
    assert(given.skip("--library-root="@.len() as int) =~= value);
    if after.len() == 0 || begins(after[0], "--"@) {
        let bare = before + seq!["--library-root"@] + after;
        assert(bare.take(k) =~= before);
        skips_other_arguments(before, bare, 0);
        assert(bare[k] == "--library-root"@);
        flag_does_not_begin_with_equals();
        if after.len() > 0 {
            assert(bare[k + 1] == after[0]);
        }
        next_flag_is_at(bare, k + 1, k + 1);
    }
}

/// The value of a flag is what stands behind the first of its kind; without the flag, or with
/// nothing behind it, there is none.
pub proof fn flags_take_what_stands_behind_them(
    before: Seq<Seq<char>>,
    flag: Seq<char>,
    value: Seq<char>,
    after: Seq<Seq<char>>,
)
    requires
        forall|i: int| 0 <= i < before.len() ==> #[trigger] before[i] != flag,
    ensures
        value_of(before + seq![flag] + seq![value] + after, flag) == Some(value),
        value_of(before + seq![flag], flag) is None,
        value_of(before, flag) is None,
        flag_at(before, flag, 0) == before.len(),
        flag_at(before + seq![flag] + after, flag, 0) == before.len(),
{
    let args = before + seq![flag] + seq![value] + after;
    let bare = before + seq![flag];
    let k = before.len() as int;
    flags_are_found(before, flag, args, 0);
    flags_are_found(before, flag, bare, 0);
    flags_are_found(before, flag, before, 0);
    flags_are_found(before, flag, before + seq![flag] + after, 0);
    assert(args[k] == flag && args[k + 1] == value);
    assert(bare[k] == flag);
    assert((before + seq![flag] + after)[k] == flag);
}

proof fn flags_are_found(before: Seq<Seq<char>>, flag: Seq<char>, args: Seq<Seq<char>>, i: int)
    requires
        0 <= i <= before.len() <= args.len(),
        forall|k: int| 0 <= k < before.len() ==> #[trigger] before[k] != flag
            && args[k] == before[k],
        before.len() < args.len() ==> args[before.len() as int] == flag,
    ensures
        flag_at(args, flag, i) == before.len(),
    decreases before.len() - i,
{
    if i < before.len() {
        assert(before[i] != flag);
        flags_are_found(before, flag, args, i + 1);
    }
}

/// A benchmark stays for as many milliseconds as it is told, and for eight seconds where it is
/// told nothing, or no number.
pub proof fn benchmarks_stay_as_long_as_they_are_told(args: Seq<Seq<char>>)
    ensures
        BENCH_DEFAULT_HOLD_MS == 8000,
        value_of(args, "--bench-hold-ms"@) is None ==> hold_time(args) == 8000,
        value_of(args, "--bench-hold-ms"@) matches Some(value) ==> hold_time(args) == match parsed(
            value,
            u64::MAX as int,
        ) {
            Some(ms) => ms,
            None => 8000int,
        },
{
}

} // verus!
