//! Decimal numbers in text: whole numbers, and seconds with a fraction, read
//! and written as microseconds.

use crate::utils::text::chars_of;
use vstd::prelude::*;

verus! {

/// Microseconds in a second.
pub const MICROS_PER_SECOND: u64 = 1_000_000;

/// Whether `c` is one of `0` to `9`.
pub open spec fn is_digit(c: char) -> bool {
    '0' <= c <= '9'
}

/// The number that a digit stands for.
pub open spec fn digit_value(c: char) -> nat {
    (c as nat - '0' as nat) as nat
}

/// Whether `s` is a non-empty run of digits.
pub open spec fn all_digits(s: Seq<char>) -> bool {
    s.len() > 0 && forall|i: int| 0 <= i < s.len() ==> is_digit(#[trigger] s[i])
}

/// The number that a run of digits stands for, most significant digit first.
pub open spec fn digits_value(s: Seq<char>) -> nat
    decreases s.len(),
{
    if s.len() == 0 {
        0
    } else {
        digits_value(s.drop_last()) * 10 + digit_value(s.last())
    }
}

/// The first `places` digits of a fraction as a whole number, a missing digit
/// counting as zero: `fraction_value("25", 6)` is 250000.
pub open spec fn fraction_value(frac: Seq<char>, places: nat) -> nat
    decreases places,
{
    if places == 0 {
        0
    } else {
        fraction_value(frac, (places - 1) as nat) * 10 + if places - 1 < frac.len() {
            digit_value(frac[places - 1])
        } else {
            0
        }
    }
}

/// Where the first `.` of `s` stands; the length of `s` if it has none.
pub open spec fn first_dot(s: Seq<char>) -> int
    decreases s.len(),
{
    if s.len() == 0 {
        0
    } else if s[0] == '.' {
        0
    } else {
        1 + first_dot(s.drop_first())
    }
}

/// Whether `s` is written as seconds: digits, or digits, a `.` and digits.
pub open spec fn is_seconds(s: Seq<char>) -> bool {
    let dot = first_dot(s);
    all_digits(s.take(dot)) && (dot == s.len() || all_digits(s.skip(dot + 1)))
}

/// The microseconds that `s` stands for where [`is_seconds`] holds. Digits
/// past the sixth place of the fraction are cut off.
pub open spec fn seconds_micros(s: Seq<char>) -> nat {
    let dot = first_dot(s);
    digits_value(s.take(dot)) * 1_000_000 + if dot == s.len() {
        0
    } else {
        fraction_value(s.skip(dot + 1), 6)
    }
}

/// A longer run of digits stands for no smaller a number.
pub proof fn lemma_digits_value_grows(s: Seq<char>, n: int)
    requires
        0 <= n <= s.len(),
    ensures
        digits_value(s.take(n)) <= digits_value(s),
    decreases s.len(),
{
    if n < s.len() {
        lemma_digits_value_grows(s.drop_last(), n);
        assert(s.drop_last().take(n) =~= s.take(n));
    } else {
        assert(s.take(n) =~= s);
    }
}

proof fn lemma_first_dot(s: Seq<char>)
    ensures
        0 <= first_dot(s) <= s.len(),
        first_dot(s) < s.len() ==> s[first_dot(s)] == '.',
        forall|i: int| 0 <= i < first_dot(s) ==> s[i] != '.',
    decreases s.len(),
{
    if s.len() > 0 && s[0] != '.' {
        let rest = s.drop_first();
        lemma_first_dot(rest);
        assert forall|i: int| 0 <= i < first_dot(s) implies s[i] != '.' by {
            if i > 0 {
                assert(s[i] == rest[i - 1]);
            }
        }
    }
}

proof fn lemma_first_dot_is(s: Seq<char>, at: int)
    requires
        0 <= at <= s.len(),
        forall|i: int| 0 <= i < at ==> s[i] != '.',
        at < s.len() ==> s[at] == '.',
    ensures
        first_dot(s) == at,
{
    lemma_first_dot(s);
}

fn digit_of(c: char) -> (d: Option<u64>)
    ensures
        match d {
            Some(v) => is_digit(c) && v == digit_value(c),
            None => !is_digit(c),
        },
{
    if '0' <= c && c <= '9' {
        Some((c as u64) - ('0' as u64))
    } else {
        None
    }
}

/// Reads `chars[from..to]` as a whole number. `None` where it is no run of
/// digits, and where the number does not fit.
pub fn parse_digits(chars: &Vec<char>, from: usize, to: usize) -> (value: Option<u64>)
    requires
        from <= to <= chars.len(),
    ensures
        match value {
            Some(v) => all_digits(chars@.subrange(from as int, to as int)) && v == digits_value(
                chars@.subrange(from as int, to as int),
            ),
            None => !all_digits(chars@.subrange(from as int, to as int)) || digits_value(
                chars@.subrange(from as int, to as int),
            ) > u64::MAX,
        },
{
    let ghost run = chars@.subrange(from as int, to as int);
    if from == to {
        return None;
    }
    let mut acc: u64 = 0;
    let mut i: usize = from;
    while i < to
        invariant
            from <= i <= to <= chars.len(),
            run == chars@.subrange(from as int, to as int),
            forall|k: int| 0 <= k < i - from ==> is_digit(#[trigger] run[k]),
            acc == digits_value(run.take(i - from)),
        decreases to - i,
    {
        let ghost seen = run.take(i - from + 1);
        proof {
            assert(seen.drop_last() =~= run.take(i - from));
            assert(seen.last() == chars@[i as int]);
            assert(run[i - from] == chars@[i as int]);
        }
        let digit = match digit_of(chars[i]) {
            Some(d) => d,
            None => {
                return None;
            },
        };
        let next = match acc.checked_mul(10) {
            Some(tens) => tens.checked_add(digit),
            None => None,
        };
        match next {
            Some(n) => {
                acc = n;
            },
            None => {
                proof {
                    assert(digits_value(seen) > u64::MAX);
                    lemma_digits_value_grows(run, i - from + 1);
                }
                return None;
            },
        }
        i += 1;
    }
    proof {
        assert(run.take(to - from) =~= run);
    }
    Some(acc)
}

fn every_digit(chars: &Vec<char>, from: usize) -> (yes: bool)
    requires
        from <= chars.len(),
    ensures
        yes == all_digits(chars@.skip(from as int)),
{
    let ghost run = chars@.skip(from as int);
    if from == chars.len() {
        return false;
    }
    let mut i: usize = from;
    while i < chars.len()
        invariant
            from <= i <= chars.len(),
            run == chars@.skip(from as int),
            forall|k: int| 0 <= k < i - from ==> is_digit(#[trigger] run[k]),
        decreases chars.len() - i,
    {
        if digit_of(chars[i]).is_none() {
            assert(!is_digit(run[i - from]));
            return false;
        }
        i += 1;
    }
    true
}

fn place(chars: &Vec<char>, from: usize, k: usize) -> (d: u64)
    requires
        from <= chars.len(),
        k < 6,
        all_digits(chars@.skip(from as int)),
    ensures
        d <= 9,
        d == if k < chars@.skip(from as int).len() {
            digit_value(chars@.skip(from as int)[k as int])
        } else {
            0
        },
{
    if k < chars.len() - from {
        assert(chars@.skip(from as int)[k as int] == chars@[from + k]);
        match digit_of(chars[from + k]) {
            Some(d) => d,
            None => 0,
        }
    } else {
        0
    }
}

/// Reads `text` as seconds and gives them in microseconds. `None` where the
/// text is not written as seconds, and where the number does not fit.
pub fn parse_seconds(text: &str) -> (micros: Option<u64>)
    ensures
        match micros {
            Some(v) => is_seconds(text@) && v == seconds_micros(text@),
            None => !is_seconds(text@) || seconds_micros(text@) > u64::MAX,
        },
{
    let chars = chars_of(text);
    let mut dot: usize = 0;
    while dot < chars.len() && chars[dot] != '.'
        invariant
            dot <= chars.len(),
            forall|i: int| 0 <= i < dot ==> chars@[i] != '.',
        decreases chars.len() - dot,
    {
        dot += 1;
    }
    proof {
        lemma_first_dot_is(chars@, dot as int);
        assert(chars@.subrange(0, dot as int) =~= chars@.take(dot as int));
    }
    let whole = match parse_digits(&chars, 0, dot) {
        Some(w) => w,
        None => {
            return None;
        },
    };
    let fraction: u64 = if dot == chars.len() {
        0
    } else {
        if !every_digit(&chars, dot + 1) {
            return None;
        }
        proof {
            reveal_with_fuel(fraction_value, 7);
        }
        let from = dot + 1;
        let d0 = place(&chars, from, 0);
        let d1 = place(&chars, from, 1);
        let d2 = place(&chars, from, 2);
        let d3 = place(&chars, from, 3);
        let d4 = place(&chars, from, 4);
        let d5 = place(&chars, from, 5);
        ((((d0 * 10 + d1) * 10 + d2) * 10 + d3) * 10 + d4) * 10 + d5
    };
    match whole.checked_mul(MICROS_PER_SECOND) {
        Some(scaled) => scaled.checked_add(fraction),
        None => None,
    }
}

/// The character of a digit.
pub open spec fn digit_char(d: nat) -> char {
    if d == 0 {
        '0'
    } else if d == 1 {
        '1'
    } else if d == 2 {
        '2'
    } else if d == 3 {
        '3'
    } else if d == 4 {
        '4'
    } else if d == 5 {
        '5'
    } else if d == 6 {
        '6'
    } else if d == 7 {
        '7'
    } else if d == 8 {
        '8'
    } else {
        '9'
    }
}

/// A whole number in decimal, without leading zeros.
pub open spec fn decimal_text(n: nat) -> Seq<char>
    decreases n,
{
    if n < 10 {
        seq![digit_char(n)]
    } else {
        decimal_text(n / 10).push(digit_char(n % 10))
    }
}

/// The six digits of a fraction counted in millionths.
pub open spec fn six_digits(n: nat) -> Seq<char> {
    seq![
        digit_char(n / 10 / 10 / 10 / 10 / 10 % 10),
        digit_char(n / 10 / 10 / 10 / 10 % 10),
        digit_char(n / 10 / 10 / 10 % 10),
        digit_char(n / 10 / 10 % 10),
        digit_char(n / 10 % 10),
        digit_char(n % 10),
    ]
}

/// Microseconds written as seconds: the whole seconds, a `.`, and six digits.
pub open spec fn seconds_text(micros: nat) -> Seq<char> {
    decimal_text(micros / 1_000_000) + seq!['.'] + six_digits(micros % 1_000_000)
}

proof fn lemma_decimal_text_is_number(n: nat)
    ensures
        all_digits(decimal_text(n)),
        digits_value(decimal_text(n)) == n,
    decreases n,
{
    let text = decimal_text(n);
    if n < 10 {
        assert(text.drop_last() =~= Seq::<char>::empty());
        assert(digits_value(text.drop_last()) == 0);
    } else {
        lemma_decimal_text_is_number(n / 10);
        assert(text.drop_last() =~= decimal_text(n / 10));
        assert forall|i: int| 0 <= i < text.len() implies is_digit(#[trigger] text[i]) by {
            if i < text.len() - 1 {
                assert(text[i] == decimal_text(n / 10)[i]);
            }
        }
    }
}

proof fn lemma_first_dot_after_digits(whole: Seq<char>, rest: Seq<char>)
    requires
        forall|i: int| 0 <= i < whole.len() ==> is_digit(#[trigger] whole[i]),
    ensures
        first_dot(whole + seq!['.'] + rest) == whole.len(),
    decreases whole.len(),
{
    let text = whole + seq!['.'] + rest;
    if whole.len() > 0 {
        assert(text[0] == whole[0]);
        assert(is_digit(whole[0]));
        lemma_first_dot_after_digits(whole.drop_first(), rest);
        assert(text.drop_first() =~= whole.drop_first() + seq!['.'] + rest);
    } else {
        assert(text[0] == '.');
    }
}

proof fn lemma_digit_char(d: nat)
    requires
        d <= 9,
    ensures
        is_digit(digit_char(d)),
        digit_value(digit_char(d)) == d,
{
}

proof fn lemma_six_digits_is_number(rest: nat)
    requires
        rest < 1_000_000,
    ensures
        all_digits(six_digits(rest)),
        fraction_value(six_digits(rest), 6) == rest,
{
    let text = six_digits(rest);
    let r1 = rest / 10;
    let r2 = r1 / 10;
    let r3 = r2 / 10;
    let r4 = r3 / 10;
    let r5 = r4 / 10;
    lemma_digit_char(r5 % 10);
    lemma_digit_char(r4 % 10);
    lemma_digit_char(r3 % 10);
    lemma_digit_char(r2 % 10);
    lemma_digit_char(r1 % 10);
    lemma_digit_char(rest % 10);
    assert(r5 < 10);
    assert(fraction_value(text, 0) == 0);
    assert(fraction_value(text, 1) == r5) by {
        assert(text[0] == digit_char(r5 % 10));
    }
    assert(fraction_value(text, 2) == r4) by {
        assert(text[1] == digit_char(r4 % 10));
    }
    assert(fraction_value(text, 3) == r3) by {
        assert(text[2] == digit_char(r3 % 10));
    }
    assert(fraction_value(text, 4) == r2) by {
        assert(text[3] == digit_char(r2 % 10));
    }
    assert(fraction_value(text, 5) == r1) by {
        assert(text[4] == digit_char(r1 % 10));
    }
    assert(fraction_value(text, 6) == rest) by {
        assert(text[5] == digit_char(rest % 10));
    }
}

/// What is written as seconds is read back as the same number: the text of
/// any number of microseconds is written as seconds and stands for that
/// number.
pub proof fn lemma_seconds_text_reads_back(micros: nat)
    ensures
        is_seconds(seconds_text(micros)),
        seconds_micros(seconds_text(micros)) == micros,
{
    let whole = decimal_text(micros / 1_000_000);
    let rest = micros % 1_000_000;
    let fraction = six_digits(rest);
    let text = seconds_text(micros);
    lemma_decimal_text_is_number(micros / 1_000_000);
    lemma_first_dot_after_digits(whole, fraction);
    lemma_six_digits_is_number(rest);
    assert(text.take(whole.len() as int) =~= whole);
    assert(text.skip(whole.len() as int + 1) =~= fraction);
}

fn char_of_digit(d: u64) -> (c: char)
    requires
        d <= 9,
    ensures
        c == digit_char(d as nat),
{
    if d == 0 {
        '0'
    } else if d == 1 {
        '1'
    } else if d == 2 {
        '2'
    } else if d == 3 {
        '3'
    } else if d == 4 {
        '4'
    } else if d == 5 {
        '5'
    } else if d == 6 {
        '6'
    } else if d == 7 {
        '7'
    } else if d == 8 {
        '8'
    } else {
        '9'
    }
}

/// Writes a whole number in decimal: [`decimal_text`].
pub fn format_decimal(n: u64) -> (text: String)
    ensures
        text@ == decimal_text(n as nat),
{
    let mut digits: Vec<char> = Vec::new();
    let mut rest: u64 = n;
    // the digits of `n`, least significant first
    while rest >= 10
        invariant
            decimal_text(n as nat) == decimal_text(rest as nat) + digits@.reverse(),
        decreases rest,
    {
        let ghost before = digits@;
        digits.push(char_of_digit(rest % 10));
        proof {
            let d = digit_char((rest % 10) as nat);
            assert(digits@.reverse() =~= seq![d] + before.reverse());
            assert(decimal_text(rest as nat) == decimal_text((rest / 10) as nat).push(d));
            assert(decimal_text((rest / 10) as nat).push(d) + before.reverse() =~= decimal_text(
                (rest / 10) as nat,
            ) + (seq![d] + before.reverse()));
        }
        rest = rest / 10;
    }
    let ghost tail = digits@.reverse();
    let mut text = String::new();
    text.push(char_of_digit(rest));
    let mut i: usize = digits.len();
    while i > 0
        invariant
            i <= digits.len(),
            tail == digits@.reverse(),
            text@ == seq![digit_char(rest as nat)] + tail.take(digits.len() - i),
        decreases i,
    {
        i -= 1;
        text.push(digits[i]);
        proof {
            let done = digits.len() - i;
            assert(tail[done - 1] == digits@[i as int]);
            assert(tail.take(done) =~= tail.take(done - 1).push(tail[done - 1]));
        }
    }
    proof {
        assert(tail.take(digits.len() as int) =~= tail);
    }
    text
}

/// Writes microseconds as seconds: [`seconds_text`].
pub fn format_seconds(micros: u64) -> (text: String)
    ensures
        text@ == seconds_text(micros as nat),
{
    let mut text = format_decimal(micros / MICROS_PER_SECOND);
    let frac = micros % MICROS_PER_SECOND;
    text.push('.');
    text.push(char_of_digit(frac / 10 / 10 / 10 / 10 / 10 % 10));
    text.push(char_of_digit(frac / 10 / 10 / 10 / 10 % 10));
    text.push(char_of_digit(frac / 10 / 10 / 10 % 10));
    text.push(char_of_digit(frac / 10 / 10 % 10));
    text.push(char_of_digit(frac / 10 % 10));
    text.push(char_of_digit(frac % 10));
    proof {
        assert(text@ =~= seconds_text(micros as nat));
    }
    text
}

} // verus!
