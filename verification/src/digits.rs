//! Numbers as decimal text.

use vstd::prelude::*;

use crate::text::chars_of;

verus! {

pub open spec fn digit_char(digit: int) -> char {
    ('0' as int + digit) as char
}

/// The digits of a number, without leading zeros.
pub open spec fn decimal(n: nat) -> Seq<char>
    decreases n,
{
    if n < 10 {
        seq![digit_char(n as int)]
    } else {
        decimal(n / 10).push(digit_char((n % 10) as int))
    }
}

pub open spec fn zeros(count: int) -> Seq<char> {
    Seq::new(
        if count > 0 {
            count as nat
        } else {
            0
        },
        |i: int| '0',
    )
}

/// The digits of a number, with zeros in front up to `width`.
pub open spec fn padded(n: nat, width: int) -> Seq<char> {
    zeros(width - decimal(n).len()) + decimal(n)
}

/// A number with its sign, where it is negative.
pub open spec fn signed_decimal(n: int) -> Seq<char> {
    if n < 0 {
        seq!['-'] + decimal((-n) as nat)
    } else {
        decimal(n as nat)
    }
}

fn digit_of(d: u64) -> (r: char)
    requires
        d < 10,
    ensures
        r == digit_char(d as int),
{
    ('0' as u8 + d as u8) as char
}

/// The digits of `n`.
pub fn decimal_chars(n: u64) -> (r: Vec<char>)
    ensures
        r@ == decimal(n as nat),
    decreases n,
{
    if n < 10 {
        let mut out: Vec<char> = Vec::new();
        out.push(digit_of(n));
        out
    } else {
        let mut out = decimal_chars(n / 10);
        out.push(digit_of(n % 10));
        out
    }
}

/// Appends a text.
pub fn push_text(out: &mut Vec<char>, text: &str)
    ensures
        final(out)@ == old(out)@ + text@,
{
    let mut more = chars_of(text);
    out.append(&mut more);
}

/// Appends the digits of a number.
pub fn push_number(out: &mut Vec<char>, n: u64)
    ensures
        final(out)@ == old(out)@ + decimal(n as nat),
{
    let mut more = decimal_chars(n);
    out.append(&mut more);
}

/// Appends the digits of a number, with zeros in front up to `width`.
pub fn push_padded(out: &mut Vec<char>, n: u64, width: usize)
    ensures
        final(out)@ == old(out)@ + padded(n as nat, width as int),
{
    let mut more = decimal_chars(n);
    let ghost start = out@;
    let mut i: usize = more.len();
    while i < width
        invariant
            more@.len() <= i,
            more@.len() <= width ==> i <= width,
            more@.len() > width ==> i == more@.len(),
            out@ == start + zeros(i - more@.len()),
        decreases width - i,
    {
        out.push('0');
        i = i + 1;
        assert(out@ =~= start + zeros(i - more@.len()));
    }
    out.append(&mut more);
    assert(out@ =~= start + padded(n as nat, width as int));
}

/// Appends a number with its sign.
pub fn push_signed(out: &mut Vec<char>, n: i64)
    ensures
        final(out)@ == old(out)@ + signed_decimal(n as int),
{
    if n < 0 {
        let ghost start = out@;
        let magnitude: u64 = (-1 - n) as u64 + 1;
        out.push('-');
        push_number(out, magnitude);
        assert(out@ =~= start + signed_decimal(n as int));
    } else {
        push_number(out, n as u64);
    }
}

pub open spec fn is_digit(c: char) -> bool {
    '0' <= c <= '9'
}

pub open spec fn digit_value(c: char) -> int {
    c as int - '0' as int
}

pub open spec fn all_digits(text: Seq<char>) -> bool {
    forall|i: int| 0 <= i < text.len() ==> is_digit(#[trigger] text[i])
}

/// The number that digits stand for.
pub open spec fn digits_value(text: Seq<char>) -> int
    decreases text.len(),
{
    if text.len() == 0 {
        0
    } else {
        digits_value(text.drop_last()) * 10 + digit_value(text.last())
    }
}

/// The digits of a number that may be written with a plus sign.
pub open spec fn unsigned_part(text: Seq<char>) -> Seq<char> {
    if text.len() > 1 && text[0] == '+' {
        text.drop_first()
    } else {
        text
    }
}

/// The number that digits, at least one and nothing else, stand for, up to `max`.
pub open spec fn plain_digits(digits: Seq<char>, max: int) -> Option<int> {
    if digits.len() > 0 && all_digits(digits) && digits_value(digits) <= max {
        Some(digits_value(digits))
    } else {
        None
    }
}

/// The number that `text` is, where it is one up to `max`: a plus sign or none, then
/// digits, at least one.
pub open spec fn parsed(text: Seq<char>, max: int) -> Option<int> {
    plain_digits(unsigned_part(text), max)
}

/// The number that `text` is, where it is one from `min` to `max`: a sign or none, then
/// digits, at least one.
pub open spec fn parsed_signed(text: Seq<char>, min: int, max: int) -> Option<int> {
    if text.len() > 1 && text[0] == '-' {
        match plain_digits(text.drop_first(), -min) {
            Some(n) => Some(-n),
            None => None,
        }
    } else {
        parsed(text, max)
    }
}

proof fn value_grows(text: Seq<char>, n: int)
    requires
        all_digits(text),
        0 <= n <= text.len(),
    ensures
        0 <= digits_value(text.take(n)) <= digits_value(text),
    decreases text.len(),
{
    if n == text.len() {
        assert(text.take(n) =~= text);
        value_is_natural(text);
    } else {
        assert(all_digits(text.drop_last()));
        value_grows(text.drop_last(), n);
        assert(text.drop_last().take(n) =~= text.take(n));
        value_is_natural(text.drop_last());
        assert(is_digit(text.last()));
    }
}

proof fn value_is_natural(text: Seq<char>)
    requires
        all_digits(text),
    ensures
        0 <= digits_value(text),
    decreases text.len(),
{
    if text.len() > 0 {
        assert(all_digits(text.drop_last()));
        value_is_natural(text.drop_last());
        assert(is_digit(text.last()));
    }
}

/// The digits of a number read back as the number.
pub proof fn decimal_reads_back(n: nat)
    ensures
        decimal(n).len() > 0,
        all_digits(decimal(n)),
        digits_value(decimal(n)) == n,
        forall|max: int| n <= max ==> #[trigger] parsed(decimal(n), max) == Some(n as int),
    decreases n,
{
    let digit = digit_char((n % 10) as int);
    assert(is_digit(digit) && digit_value(digit) == n % 10);
    if n < 10 {
        assert(decimal(n).drop_last() =~= Seq::<char>::empty());
        assert(digits_value(Seq::<char>::empty()) == 0);
    } else {
        decimal_reads_back(n / 10);
        assert(decimal(n).drop_last() =~= decimal(n / 10));
    }
    assert(is_digit(decimal(n)[0]));
}

/// Reads the digits from `start` on.
fn parse_digits(chars: &Vec<char>, start: usize, max: u64) -> (r: Option<u64>)
    requires
        start <= chars@.len(),
    ensures
        match r {
            Some(n) => plain_digits(chars@.skip(start as int), max as int) == Some(n as int),
            None => plain_digits(chars@.skip(start as int), max as int) is None,
        },
{
    let ghost digits = chars@.skip(start as int);
    if start == chars.len() {
        return None;
    }
    let mut i: usize = start;
    let mut value: u64 = 0;
    assert(digits.take(0) =~= Seq::<char>::empty());
    while i < chars.len()
        invariant
            start <= i <= chars@.len(),
            digits == chars@.skip(start as int),
            all_digits(digits.take(i - start)),
            value == digits_value(digits.take(i - start)),
            value <= max,
        decreases chars@.len() - i,
    {
        let c = chars[i];
        let ghost at = i - start;
        assert(digits[at] == c);
        if !('0' <= c && c <= '9') {
            return None;
        }
        let digit: u64 = (c as u32 - '0' as u32) as u64;
        proof {
            let next = digits.take(at + 1);
            assert(next.drop_last() =~= digits.take(at));
            assert(digits_value(next) == value * 10 + digit);
            assert(all_digits(next)) by {
                assert forall|k: int| 0 <= k < next.len() implies is_digit(#[trigger] next[k]) by {
                    if k < at {
                        assert(digits.take(at)[k] == next[k]);
                    }
                }
            }
            if all_digits(digits) {
                value_grows(digits, at + 1);
            }
        }
        if value > (u64::MAX - digit) / 10 {
            return None;
        }
        value = value * 10 + digit;
        if value > max {
            return None;
        }
        i = i + 1;
    }
    assert(digits.take(digits.len() as int) =~= digits);
    Some(value)
}

fn parse_up_to(text: &str, max: u64) -> (r: Option<u64>)
    ensures
        match r {
            Some(n) => parsed(text@, max as int) == Some(n as int),
            None => parsed(text@, max as int) is None,
        },
{
    let chars = chars_of(text);
    let start: usize = if chars.len() > 1 && chars[0] == '+' {
        1
    } else {
        0
    };
    assert(unsigned_part(text@) =~= chars@.skip(start as int));
    parse_digits(&chars, start, max)
}

/// Reads an `i32` as its `FromStr` does.
pub fn parse_i32(text: &str) -> (r: Option<i32>)
    ensures
        match r {
            Some(n) => parsed_signed(text@, i32::MIN as int, i32::MAX as int) == Some(n as int),
            None => parsed_signed(text@, i32::MIN as int, i32::MAX as int) is None,
        },
{
    let chars = chars_of(text);
    if chars.len() > 1 && chars[0] == '-' {
        assert(text@.drop_first() =~= chars@.skip(1));
        match parse_digits(&chars, 1, 0x8000_0000) {
            Some(n) => {
                let value: i64 = -(n as i64);
                Some(value as i32)
            },
            None => None,
        }
    } else {
        match parse_up_to(text, 0x7fff_ffff) {
            Some(n) => Some(n as i32),
            None => None,
        }
    }
}

/// Reads a `usize` as its `FromStr` does.
pub fn parse_usize(text: &str) -> (r: Option<usize>)
    ensures
        match r {
            Some(n) => parsed(text@, usize::MAX as int) == Some(n as int),
            None => parsed(text@, usize::MAX as int) is None,
        },
{
    match parse_up_to(text, usize::MAX as u64) {
        Some(n) => Some(n as usize),
        None => None,
    }
}

/// Reads a `u64` as its `FromStr` does.
pub fn parse_u64(text: &str) -> (r: Option<u64>)
    ensures
        match r {
            Some(n) => parsed(text@, u64::MAX as int) == Some(n as int),
            None => parsed(text@, u64::MAX as int) is None,
        },
{
    parse_up_to(text, u64::MAX)
}

/// Reads a `u32` as its `FromStr` does.
pub fn parse_u32(text: &str) -> (r: Option<u32>)
    ensures
        match r {
            Some(n) => parsed(text@, u32::MAX as int) == Some(n as int),
            None => parsed(text@, u32::MAX as int) is None,
        },
{
    match parse_up_to(text, u32::MAX as u64) {
        Some(n) => {
            Some(n as u32)
        },
        None => None,
    }
}

/// A number is written with the ten digits, one for each power of ten, without a zero in front.
pub proof fn numbers_are_written_digit_by_digit(n: nat, d: nat)
    requires
        d < 10,
    ensures
        decimal(d).len() == 1,
        decimal(d)[0] as u32 == 48 + d,
        n > 0 ==> decimal(10 * n + d) == decimal(n) + decimal(d),
        n > 0 ==> decimal(n)[0] != '0',
        decimal(n).len() > 0,
        forall|i: int| 0 <= i < decimal(n).len() ==> '0' <= #[trigger] decimal(n)[i] <= '9',
    decreases n,
{
    decimal_reads_back(n);
    assert forall|i: int| 0 <= i < decimal(n).len() implies '0' <= #[trigger] decimal(n)[i]
        <= '9' by {
        assert(is_digit(decimal(n)[i]));
    }
    if n > 0 {
        assert((10 * n + d) / 10 == n && (10 * n + d) % 10 == d);
        assert(decimal(10 * n + d) =~= decimal(n) + decimal(d));
        if n >= 10 {
            numbers_are_written_digit_by_digit(n / 10, 0);
            assert(decimal(n)[0] == decimal(n / 10)[0]);
        }
    }
}

/// Padding puts zeros in front, as many as the width asks for, and changes no number.
pub proof fn padding_keeps_the_number(n: nat, width: int)
    ensures
        width <= decimal(n).len() ==> padded(n, width) == decimal(n),
        width > decimal(n).len() ==> padded(n, width).len() == width,
        forall|i: int|
            0 <= i < padded(n, width).len() - decimal(n).len() ==> #[trigger] padded(n, width)[i]
                == '0',
        padded(n, width).skip(padded(n, width).len() - decimal(n).len()) == decimal(n),
{
    assert(padded(n, width).skip(padded(n, width).len() - decimal(n).len()) =~= decimal(n));
    if width <= decimal(n).len() {
        assert(padded(n, width) =~= decimal(n));
    }
}

/// A negative number is written with a minus in front of its magnitude, any other without a
/// sign; and numbers within the bounds read back.
pub proof fn signed_numbers_read_back(n: int, min: int, max: int)
    requires
        min <= n <= max,
    ensures
        n < 0 ==> signed_decimal(n) == seq!['-'] + decimal((-n) as nat),
        n >= 0 ==> signed_decimal(n) == decimal(n as nat),
        parsed_signed(signed_decimal(n), min, max) == Some(n),
{
    if n < 0 {
        let magnitude = (-n) as nat;
        decimal_reads_back(magnitude);
        assert(signed_decimal(n).drop_first() =~= decimal(magnitude));
    } else {
        decimal_reads_back(n as nat);
        assert(is_digit(decimal(n as nat)[0]));
    }
}

/// What reads as a number: digits, at least one, behind a plus sign or none, up to the
/// bound; each digit counts ten times as much as the one behind it.
pub proof fn numbers_are_read_digit_by_digit(text: Seq<char>, c: char, max: int)
    ensures
        parsed(text, max) matches Some(n) ==> n <= max && text.len() > 0,
        (exists|i: int| 0 < i < text.len() && !('0' <= #[trigger] text[i] <= '9')) ==> parsed(
            text,
            max,
        ) is None,
        text.len() == 0 ==> parsed(text, max) is None,
        text.len() > 0 && !('0' <= text[0] <= '9') && text[0] != '+' ==> parsed(text, max) is None,
        text == seq!['+'] ==> parsed(text, max) is None,
        digits_value(Seq::<char>::empty()) == 0,
        digits_value(text.push(c)) == 10 * digits_value(text) + (c as int - 48),
        text.len() > 0 && (forall|i: int|
            0 <= i < text.len() ==> '0' <= #[trigger] text[i] <= '9') ==> {
            &&& digits_value(text) <= max ==> parsed(text, max) == Some(digits_value(text))
            &&& digits_value(text) > max ==> parsed(text, max) is None
            &&& parsed(seq!['+'] + text, max) == parsed(text, max)
        },
{
    assert(text.push(c).drop_last() =~= text);
    if exists|i: int| 0 < i < text.len() && !('0' <= #[trigger] text[i] <= '9') {
        let i = choose|i: int| 0 < i < text.len() && !('0' <= #[trigger] text[i] <= '9');
        if text.len() > 1 && text[0] == '+' {
            assert(text.drop_first()[i - 1] == text[i]);
        }
        let part = unsigned_part(text);
        let at = if text.len() > 1 && text[0] == '+' {
            i - 1
        } else {
            i
        };
        assert(!is_digit(part[at]));
    }
    if text.len() > 0 && !('0' <= text[0] <= '9') && text[0] != '+' {
        assert(!is_digit(unsigned_part(text)[0]));
    }
    if text == seq!['+'] {
        assert(!is_digit(text[0]));
    }
    if text.len() > 0 && (forall|i: int| 0 <= i < text.len() ==> '0' <= #[trigger] text[i] <= '9') {
        assert(all_digits(text)) by {
            assert forall|i: int| 0 <= i < text.len() implies is_digit(#[trigger] text[i]) by {}
        }
        assert(text[0] != '+');
        assert((seq!['+'] + text).drop_first() =~= text);
    }
}

/// With a sign in front a number is read within its bounds: a minus takes it from nought, and
/// nothing outside the bounds is read.
pub proof fn signed_numbers_are_read_within_their_bounds(text: Seq<char>, min: int, max: int)
    requires
        min <= 0 <= max,
    ensures
        parsed_signed(text, min, max) matches Some(n) ==> min <= n <= max,
        text.len() > 0 && (forall|i: int|
            0 <= i < text.len() ==> '0' <= #[trigger] text[i] <= '9') ==> {
            &&& digits_value(text) <= -min ==> parsed_signed(seq!['-'] + text, min, max) == Some(
                -digits_value(text),
            )
            &&& digits_value(text) > -min ==> parsed_signed(seq!['-'] + text, min, max) is None
            &&& parsed_signed(text, min, max) == parsed(text, max)
        },
        parsed_signed(seq!['-'], min, max) is None,
{
    numbers_are_read_digit_by_digit(text, '0', max);
    if parsed_signed(text, min, max) is Some {
        if text.len() > 1 && text[0] == '-' {
            value_is_natural(text.drop_first());
        } else {
            value_is_natural(unsigned_part(text));
        }
    }
    if text.len() > 0 && (forall|i: int| 0 <= i < text.len() ==> '0' <= #[trigger] text[i] <= '9') {
        assert(all_digits(text)) by {
            assert forall|i: int| 0 <= i < text.len() implies is_digit(#[trigger] text[i]) by {}
        }
        assert((seq!['-'] + text).drop_first() =~= text);
        assert(text[0] != '-');
    }
    let minus = seq!['-'];
    assert(!is_digit(minus[0]));
}

} // verus!
