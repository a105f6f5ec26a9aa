//! Durations in the notation of Go, such as `300ms`, `10s` or `2h30m`.
//!
//! A duration is a number of milliseconds. It is written as one number with its
//! unit or more of them, one behind the other, and lasts as long as all of them
//! together. A number may have a fraction; what is left of a millisecond is
//! dropped.

use vstd::arithmetic::div_mod::*;
use vstd::arithmetic::power::*;
use vstd::prelude::*;
use vstd::string::*;

use crate::text;

verus! {

/// The character belongs to a number.
pub open spec fn number_char(c: char) -> bool {
    text::is_digit(c) || c == '.'
}

/// How many characters at the front of `s` belong to a number.
pub open spec fn number_len(s: Seq<char>) -> int
    decreases s.len(),
{
    if s.len() == 0 || !number_char(s[0]) {
        0
    } else {
        1 + number_len(s.drop_first())
    }
}

/// The digits before the point of a number.
pub open spec fn whole_part(number: Seq<char>) -> Seq<char> {
    text::before(number, '.')
}

/// The digits behind the point of a number.
pub open spec fn fraction_part(number: Seq<char>) -> Seq<char> {
    let k = text::first_index(number, '.');
    if k < number.len() {
        number.skip(k + 1)
    } else {
        seq![]
    }
}

/// The number has a digit, and at most one point.
pub open spec fn proper_number(number: Seq<char>) -> bool {
    let digits = whole_part(number) + fraction_part(number);
    digits.len() > 0 && text::all_digits(digits)
}

/// `n`, or the largest number of 64 bits where `n` is larger.
pub open spec fn saturated(n: int) -> int {
    if n > u64::MAX {
        u64::MAX as int
    } else {
        n
    }
}

/// The whole milliseconds in a number of units of `factor` milliseconds.
pub open spec fn number_ms(number: Seq<char>, factor: int) -> int {
    let fraction = fraction_part(number);
    saturated(
        (text::digits_value(whole_part(number) + fraction) * factor) / pow(10, fraction.len()),
    )
}

/// The unit at the front of `s`: how many milliseconds it has, and how many
/// characters.
pub open spec fn unit(s: Seq<char>) -> Option<(int, int)> {
    if s.len() > 1 && s[0] == 'm' && s[1] == 's' {
        Some((1, 2))
    } else if s.len() > 0 && s[0] == 's' {
        Some((1_000, 1))
    } else if s.len() > 0 && s[0] == 'm' {
        Some((60_000, 1))
    } else if s.len() > 0 && s[0] == 'h' {
        Some((3_600_000, 1))
    } else {
        None
    }
}

/// The milliseconds in a sequence of numbers with their units; nothing where it is
/// no such sequence.
pub open spec fn total_ms(s: Seq<char>) -> Option<int>
    decreases s.len(),
    via total_ms_shrinks
{
    if s.len() == 0 {
        Some(0)
    } else {
        let number = s.take(number_len(s));
        let rest = s.skip(number_len(s));
        if !proper_number(number) {
            None
        } else {
            match unit(rest) {
                None => None,
                Some((factor, width)) => match total_ms(rest.skip(width)) {
                    None => None,
                    Some(ms) => Some(number_ms(number, factor) + ms),
                },
            }
        }
    }
}

#[via_fn]
proof fn total_ms_shrinks(s: Seq<char>) {
    lemma_number_len(s);
}

/// The milliseconds in a duration; nothing where `s` is none.
pub open spec fn duration_ms(s: Seq<char>) -> Option<int> {
    if s.len() == 0 {
        None
    } else {
        total_ms(s)
    }
}

/// A duration that is spelled out does not exceed what 64 bits hold.
pub open spec fn fits(s: Seq<char>) -> bool {
    duration_ms(s) matches Some(ms) ==> ms <= u64::MAX
}

pub proof fn lemma_number_len(s: Seq<char>)
    ensures
        0 <= number_len(s) <= s.len(),
        forall|k: int| 0 <= k < number_len(s) ==> number_char(#[trigger] s[k]),
        number_len(s) < s.len() ==> !number_char(s[number_len(s)]),
    decreases s.len(),
{
    if s.len() > 0 && number_char(s[0]) {
        let rest = s.drop_first();
        lemma_number_len(rest);
        assert forall|k: int| 0 <= k < number_len(s) implies number_char(#[trigger] s[k]) by {
            if k > 0 {
                assert(rest[k - 1] == s[k]);
            }
        }
        if number_len(s) < s.len() {
            assert(rest[number_len(rest)] == s[number_len(s)]);
        }
    }
}

pub proof fn lemma_number_len_unique(s: Seq<char>, n: int)
    requires
        0 <= n <= s.len(),
        forall|k: int| 0 <= k < n ==> number_char(#[trigger] s[k]),
        n < s.len() ==> !number_char(s[n]),
    ensures
        number_len(s) == n,
{
    lemma_number_len(s);
    let m = number_len(s);
    if m < n {
        assert(number_char(s[m]));
    }
    if n < m {
        assert(number_char(s[n]));
    }
}

proof fn lemma_digits_concat(a: Seq<char>, b: Seq<char>)
    ensures
        text::digits_value(a + b) == text::digits_value(a) * pow(10, b.len())
            + text::digits_value(b),
    decreases b.len(),
{
    if b.len() == 0 {
        assert(a + b =~= a);
        lemma_pow0(10);
    } else {
        let front = b.drop_last();
        lemma_digits_concat(a, front);
        assert((a + b).drop_last() =~= a + front);
        reveal(pow);
        let (x, p, y) = (
            text::digits_value(a) as int,
            pow(10, front.len()),
            text::digits_value(front) as int,
        );
        assert((x * p + y) * 10 == x * (10 * p) + y * 10) by (nonlinear_arith);
    }
}

/// One more digit before a fraction: the whole milliseconds come from those of the
/// fraction behind it.
proof fn lemma_fraction_step(rest: Seq<char>, digit: char, factor: int)
    requires
        factor >= 0,
        text::is_digit(digit),
    ensures
        (text::digits_value(seq![digit] + rest) * factor) / pow(10, rest.len() + 1) == (
        text::digit_value(digit) * factor + (text::digits_value(rest) * factor) / pow(
            10,
            rest.len(),
        )) / 10,
{
    let p = pow(10, rest.len());
    let d = text::digit_value(digit) as int;
    let y = text::digits_value(rest) as int;
    lemma_pow_positive(10, rest.len());
    lemma_digits_concat(seq![digit], rest);
    assert(seq![digit].drop_last() =~= Seq::<char>::empty());
    assert(text::digits_value(seq![digit]) == d) by {
        assert(seq![digit].last() == digit);
        assert(text::digits_value(Seq::<char>::empty()) == 0);
    }
    assert(pow(10, rest.len() + 1) == p * 10) by {
        reveal(pow);
    }
    let all = (d * p + y) * factor;
    assert(all == y * factor + (d * factor) * p) by (nonlinear_arith)
        requires
            all == (d * p + y) * factor,
    ;
    assert(all >= 0) by (nonlinear_arith)
        requires
            all == (d * p + y) * factor,
            d >= 0,
            p > 0,
            y >= 0,
            factor >= 0,
    ;
    lemma_hoist_over_denominator(y * factor, d * factor, p as nat);
    lemma_div_denominator(all, p, 10);
}

/// The whole milliseconds in the fraction `chars[from..to]` of a unit of `factor`
/// milliseconds.
fn fraction_ms(chars: &Vec<char>, from: usize, to: usize, factor: u64) -> (r: u64)
    requires
        from <= to <= chars@.len(),
        text::all_digits(chars@.subrange(from as int, to as int)),
        factor <= 3_600_000,
    ensures
        r == (text::digits_value(chars@.subrange(from as int, to as int)) * factor) / pow(
            10,
            (to - from) as nat,
        ),
        r <= factor,
{
    let mut r: u64 = 0;
    let mut i: usize = to;
    let ghost fraction = chars@.subrange(from as int, to as int);
    proof {
        assert(chars@.subrange(to as int, to as int) =~= Seq::<char>::empty());
        assert(text::digits_value(Seq::<char>::empty()) * factor == 0) by (nonlinear_arith)
            requires
                text::digits_value(Seq::<char>::empty()) == 0,
        ;
        lemma_pow0(10);
    }
    while i > from
        invariant
            from <= i <= to <= chars@.len(),
            fraction == chars@.subrange(from as int, to as int),
            text::all_digits(fraction),
            factor <= 3_600_000,
            r <= factor,
            r == (text::digits_value(chars@.subrange(i as int, to as int)) * factor) / pow(
                10,
                (to - i) as nat,
            ),
        decreases i,
    {
        let c = chars[i - 1];
        assert(fraction[i - 1 - from] == c);
        proof {
            let rest = chars@.subrange(i as int, to as int);
            lemma_fraction_step(rest, c, factor as int);
            assert(seq![c] + rest =~= chars@.subrange(i - 1, to as int));
        }
        let d: u64 = c as u64 - 48;
        assert(d * factor <= 9 * factor) by (nonlinear_arith)
            requires
                d <= 9,
        ;
        r = (d * factor + r) / 10;
        i = i - 1;
    }
    r
}

/// The number that `chars[from..to]` spells, or the first one that exceeds 64 bits
/// where it is larger.
fn whole_number(chars: &Vec<char>, from: usize, to: usize) -> (r: u128)
    requires
        from <= to <= chars@.len(),
        text::all_digits(chars@.subrange(from as int, to as int)),
    ensures
        r <= 0x1_0000_0000_0000_0000,
        r < 0x1_0000_0000_0000_0000 ==> r == text::digits_value(
            chars@.subrange(from as int, to as int),
        ),
        r == 0x1_0000_0000_0000_0000 ==> text::digits_value(
            chars@.subrange(from as int, to as int),
        ) >= 0x1_0000_0000_0000_0000,
{
    let mut r: u128 = 0;
    let mut i: usize = from;
    let ghost whole = chars@.subrange(from as int, to as int);
    assert(whole.take(0) =~= Seq::<char>::empty());
    while i < to
        invariant
            from <= i <= to <= chars@.len(),
            whole == chars@.subrange(from as int, to as int),
            text::all_digits(whole),
            r < 0x1_0000_0000_0000_0000,
            r == text::digits_value(whole.take(i - from)),
        decreases to - i,
    {
        let c = chars[i];
        assert(whole[i - from] == c);
        let ghost next = whole.take(i - from + 1);
        assert(next.drop_last() =~= whole.take(i - from));
        assert(next.last() == c);
        r = r * 10 + (c as u128 - 48);
        if r >= 0x1_0000_0000_0000_0000 {
            proof {
                text::lemma_digits_value_grows(whole, i - from + 1);
            }
            return 0x1_0000_0000_0000_0000;
        }
        i = i + 1;
    }
    assert(whole.take(whole.len() as int) =~= whole);
    r
}

/// Whether all of `chars[from..to]` are decimal digits.
fn are_digits(chars: &Vec<char>, from: usize, to: usize) -> (r: bool)
    requires
        from <= to <= chars@.len(),
    ensures
        r == text::all_digits(chars@.subrange(from as int, to as int)),
{
    let ghost part = chars@.subrange(from as int, to as int);
    let mut i: usize = from;
    while i < to
        invariant
            from <= i <= to <= chars@.len(),
            part == chars@.subrange(from as int, to as int),
            forall|k: int| 0 <= k < i - from ==> text::is_digit(#[trigger] part[k]),
        decreases to - i,
    {
        let c = chars[i];
        assert(part[i - from] == c);
        if !('0' <= c && c <= '9') {
            return false;
        }
        i = i + 1;
    }
    true
}

/// The milliseconds in the number `chars[from..to]` of units of `factor`
/// milliseconds; nothing where it is no proper number.
fn parse_number(chars: &Vec<char>, from: usize, to: usize, factor: u64) -> (r: Option<u64>)
    requires
        from <= to <= chars@.len(),
        0 < factor <= 3_600_000,
    ensures
        ({
            let number = chars@.subrange(from as int, to as int);
            match r {
                Some(ms) => proper_number(number) && ms == number_ms(number, factor as int),
                None => !proper_number(number),
            }
        }),
{
    let ghost number = chars@.subrange(from as int, to as int);
    let mut point: usize = from;
    while point < to && chars[point] != '.'
        invariant
            from <= point <= to <= chars@.len(),
            number == chars@.subrange(from as int, to as int),
            forall|k: int| 0 <= k < point - from ==> #[trigger] number[k] != '.',
        decreases to - point,
    {
        assert(number[point - from] == chars@[point as int]);
        point = point + 1;
    }
    let behind: usize = if point < to {
        point + 1
    } else {
        to
    };
    let ghost whole = whole_part(number);
    let ghost fraction = fraction_part(number);
    proof {
        if point < to {
            assert(number[point - from] == chars@[point as int]);
        }
        text::lemma_first_index_unique(number, '.', point - from);
        assert(whole =~= chars@.subrange(from as int, point as int));
        assert(fraction =~= chars@.subrange(behind as int, to as int));
        lemma_all_digits_concat(whole, fraction);
    }
    if !are_digits(chars, from, point) || !are_digits(chars, behind, to) {
        return None;
    }
    if point == from && behind == to {
        assert((whole + fraction).len() == 0);
        return None;
    }
    let count = whole_number(chars, from, point);
    let part: u64 = fraction_ms(chars, behind, to, factor);
    let ghost value = (text::digits_value(whole + fraction) * factor) / pow(10, fraction.len());
    proof {
        let p = pow(10, fraction.len());
        let (w, f) = (
            text::digits_value(whole) as int,
            text::digits_value(fraction) as int,
        );
        lemma_pow_positive(10, fraction.len());
        lemma_digits_concat(whole, fraction);
        assert((w * p + f) * factor == f * factor + (w * factor) * p) by (nonlinear_arith);
        lemma_hoist_over_denominator(f * factor, w * factor, p as nat);
        assert(value == w * factor + part);
        assert(count * factor <= 0x1_0000_0000_0000_0000 * 3_600_000) by (nonlinear_arith)
            requires
                count <= 0x1_0000_0000_0000_0000,
                0 < factor <= 3_600_000,
        ;
        if count == 0x1_0000_0000_0000_0000 {
            assert(w * factor >= 0x1_0000_0000_0000_0000) by (nonlinear_arith)
                requires
                    w >= 0x1_0000_0000_0000_0000,
                    0 < factor,
            ;
            assert(count * factor >= 0x1_0000_0000_0000_0000) by (nonlinear_arith)
                requires
                    count == 0x1_0000_0000_0000_0000,
                    0 < factor,
            ;
        }
    }
    let ms: u128 = count * (factor as u128) + part as u128;
    if ms > u64::MAX as u128 {
        Some(u64::MAX)
    } else {
        Some(ms as u64)
    }
}

proof fn lemma_all_digits_concat(a: Seq<char>, b: Seq<char>)
    ensures
        text::all_digits(a + b) <==> text::all_digits(a) && text::all_digits(b),
{
    let all = a + b;
    if text::all_digits(all) {
        assert forall|i: int| 0 <= i < a.len() implies text::is_digit(#[trigger] a[i]) by {
            assert(all[i] == a[i]);
        }
        assert forall|i: int| 0 <= i < b.len() implies text::is_digit(#[trigger] b[i]) by {
            assert(all[a.len() + i] == b[i]);
        }
    }
}

/// The unit at `chars[at..]`: how many milliseconds it has, and how many
/// characters.
fn parse_unit(chars: &Vec<char>, at: usize) -> (r: Option<(u64, usize)>)
    requires
        at <= chars@.len(),
    ensures
        match r {
            Some((factor, width)) => {
                &&& unit(chars@.skip(at as int)) == Some((factor as int, width as int))
                &&& 0 < factor <= 3_600_000
                &&& 0 < width
                &&& at + width <= chars@.len()
            },
            None => unit(chars@.skip(at as int)) is None,
        },
{
    let ghost rest = chars@.skip(at as int);
    if at >= chars.len() {
        return None;
    }
    let c = chars[at];
    assert(rest[0] == c);
    if c == 'm' && chars.len() - at > 1 {
        let next = chars[at + 1];
        assert(rest[1] == next);
        if next == 's' {
            return Some((1, 2));
        }
    }
    match c {
        's' => Some((1_000, 1)),
        'm' => Some((60_000, 1)),
        'h' => Some((3_600_000, 1)),
        _ => None,
    }
}

/// The milliseconds in a duration, however many they are.
fn parse_wide(s: &str) -> (r: Option<u128>)
    ensures
        match r {
            Some(ms) => duration_ms(s@) == Some(ms as int),
            None => duration_ms(s@) is None,
        },
{
    let chars = text::chars_of(s);
    let count: usize = chars.len();
    if count == 0 {
        return None;
    }
    let mut total: u128 = 0;
    let mut i: usize = 0;
    assert(chars@.skip(0) =~= s@);
    while i < count
        invariant
            i <= count,
            count == chars@.len(),
            chars@ == s@,
            s@.len() > 0,
            total <= i * u64::MAX,
            match total_ms(chars@.skip(i as int)) {
                Some(ms) => duration_ms(s@) == Some(total + ms),
                None => duration_ms(s@) is None,
            },
        decreases count - i,
    {
        let ghost rest = chars@.skip(i as int);
        let start: usize = i;
        let mut end: usize = i;
        while end < count && (('0' <= chars[end] && chars[end] <= '9') || chars[end] == '.')
            invariant
                start <= end <= count,
                count == chars@.len(),
                rest == chars@.skip(start as int),
                forall|k: int| 0 <= k < end - start ==> number_char(#[trigger] rest[k]),
            decreases count - end,
        {
            assert(rest[end - start] == chars@[end as int]);
            end = end + 1;
        }
        proof {
            if end < count {
                assert(rest[end - start] == chars@[end as int]);
            }
            lemma_number_len_unique(rest, end - start);
            assert(rest.take(end - start) =~= chars@.subrange(start as int, end as int));
            assert(rest.skip(end - start) =~= chars@.skip(end as int));
        }
        match parse_unit(&chars, end) {
            None => {
                return None;
            },
            Some((factor, width)) => match parse_number(&chars, start, end, factor) {
                None => {
                    return None;
                },
                Some(ms) => {
                    proof {
                        assert(chars@.skip(end as int).skip(width as int) =~= chars@.skip(
                            end + width,
                        ));
                        assert(total + ms <= (i + 1) * u64::MAX) by (nonlinear_arith)
                            requires
                                total <= i * u64::MAX,
                                ms <= u64::MAX,
                        ;
                        assert((i + 1) * u64::MAX <= (end + width) * u64::MAX) by (nonlinear_arith)
                            requires
                                i + 1 <= end + width,
                        ;
                        assert((end + width) * u64::MAX <= u64::MAX * u64::MAX) by (nonlinear_arith)
                            requires
                                end + width <= u64::MAX,
                        ;
                    }
                    total = total + ms as u128;
                    i = end + width;
                },
            },
        }
    }
    assert(chars@.skip(count as int) =~= Seq::<char>::empty());
    Some(total)
}

/// Whether a duration that is spelled out does not exceed what 64 bits hold.
pub fn duration_fits(s: &str) -> (r: bool)
    ensures
        r == fits(s@),
{
    match parse_wide(s) {
        Some(ms) => ms <= u64::MAX as u128,
        None => true,
    }
}

/// The milliseconds in a duration; nothing where `s` is none.
pub fn parse_go_duration(s: &str) -> (r: Option<u64>)
    requires
        fits(s@),
    ensures
        match r {
            Some(ms) => duration_ms(s@) == Some(ms as int),
            None => duration_ms(s@) is None,
        },
{
    match parse_wide(s) {
        Some(ms) => Some(ms as u64),
        None => None,
    }
}

/// What a text says of a duration.
#[derive(Debug, Clone, Copy, PartialEq, Eq, Structural)]
pub enum Spelled {
    /// A duration of so many milliseconds.
    Milliseconds(u64),
    /// A duration that exceeds what 64 bits hold.
    TooLong,
    /// No duration.
    Nothing,
}

/// What `s` says of a duration.
pub fn checked_parse_go_duration(s: &str) -> (r: Spelled)
    ensures
        match r {
            Spelled::Milliseconds(ms) => duration_ms(s@) == Some(ms as int),
            Spelled::TooLong => !fits(s@),
            Spelled::Nothing => duration_ms(s@) is None,
        },
{
    if !duration_fits(s) {
        return Spelled::TooLong;
    }
    match parse_go_duration(s) {
        Some(ms) => Spelled::Milliseconds(ms),
        None => Spelled::Nothing,
    }
}

/// Two durations, one behind the other, last as long as both together.
pub proof fn law_durations_add_up(a: Seq<char>, b: Seq<char>)
    requires
        duration_ms(a) is Some,
        duration_ms(b) is Some,
    ensures
        duration_ms(a + b) == Some(duration_ms(a)->0 + duration_ms(b)->0),
{
    lemma_begins_with_number(b);
    lemma_totals_add_up(a, b);
}

pub proof fn lemma_begins_with_number(s: Seq<char>)
    requires
        s.len() > 0,
        total_ms(s) is Some,
    ensures
        number_char(s[0]),
{
    if !number_char(s[0]) {
        let number = s.take(number_len(s));
        assert(number =~= Seq::<char>::empty());
        text::lemma_first_index(number, '.');
        assert(whole_part(number) + fraction_part(number) =~= Seq::<char>::empty());
    }
}

proof fn lemma_totals_add_up(a: Seq<char>, b: Seq<char>)
    requires
        total_ms(a) is Some,
        total_ms(b) is Some,
        b.len() > 0,
        number_char(b[0]),
    ensures
        total_ms(a + b) == Some(total_ms(a)->0 + total_ms(b)->0),
    decreases a.len(),
{
    if a.len() == 0 {
        assert(a + b =~= b);
    } else {
        let n = number_len(a);
        let all = a + b;
        lemma_number_len(a);
        let rest = a.skip(n);
        assert(unit(rest) is Some);
        assert forall|k: int| 0 <= k < n implies number_char(#[trigger] all[k]) by {
            assert(all[k] == a[k]);
        }
        assert(rest[0] == a[n]);
        assert(all[n] == a[n]);
        lemma_number_len_unique(all, n);
        assert(all.take(n) =~= a.take(n));
        assert(all.skip(n) =~= rest + b);
        let (factor, width) = unit(rest)->0;
        assert((rest + b)[0] == rest[0]);
        if rest.len() > 1 {
            assert((rest + b)[1] == rest[1]);
        } else {
            assert((rest + b)[1] == b[0]);
        }
        assert(unit(rest + b) == Some((factor, width)));
        assert((rest + b).skip(width) =~= rest.skip(width) + b);
        lemma_totals_add_up(rest.skip(width), b);
    }
}

pub proof fn lemma_decimal(n: nat)
    ensures
        text::decimal(n).len() > 0,
        text::all_digits(text::decimal(n)),
        text::digits_value(text::decimal(n)) == n,
    decreases n,
{
    let s = text::decimal(n);
    if n < 10 {
        assert(s.drop_last() =~= Seq::<char>::empty());
        assert(text::digits_value(s.drop_last()) == 0);
        assert(s.last() == text::digit_char(n));
    } else {
        lemma_decimal(n / 10);
        assert(s.drop_last() =~= text::decimal(n / 10));
        assert(s.last() == text::digit_char(n % 10));
        assert forall|i: int| 0 <= i < s.len() implies text::is_digit(#[trigger] s[i]) by {
            if i < s.len() - 1 {
                assert(s[i] == text::decimal(n / 10)[i]);
            }
        }
    }
}

/// A whole number of hours, minutes, seconds or milliseconds lasts that many of
/// them, as far as 64 bits hold the milliseconds.
pub proof fn law_whole_numbers_of_units(n: nat)
    ensures
        duration_ms(text::decimal(n) + "h"@) == Some(saturated(n * 3_600_000int)),
        duration_ms(text::decimal(n) + "m"@) == Some(saturated(n * 60_000int)),
        duration_ms(text::decimal(n) + "s"@) == Some(saturated(n * 1_000int)),
        duration_ms(text::decimal(n) + "ms"@) == Some(saturated(n as int)),
{
    reveal_strlit("h");
    reveal_strlit("m");
    reveal_strlit("s");
    reveal_strlit("ms");
    lemma_whole_number(n, "h"@, 3_600_000);
    lemma_whole_number(n, "m"@, 60_000);
    lemma_whole_number(n, "s"@, 1_000);
    lemma_whole_number(n, "ms"@, 1);
}

proof fn lemma_whole_number(n: nat, name: Seq<char>, factor: int)
    requires
        name.len() > 0,
        !number_char(name[0]),
        unit(name) == Some((factor, name.len() as int)),
    ensures
        duration_ms(text::decimal(n) + name) == Some(saturated(n * factor)),
{
    let digits = text::decimal(n);
    let s = digits + name;
    lemma_decimal(n);
    assert forall|k: int| 0 <= k < digits.len() implies number_char(#[trigger] s[k]) && s[k]
        != '.' by {
        assert(s[k] == digits[k]);
        assert(text::is_digit(digits[k]));
    }
    assert(s[digits.len() as int] == name[0]);
    lemma_number_len_unique(s, digits.len() as int);
    assert(s.take(digits.len() as int) =~= digits);
    assert(s.skip(digits.len() as int) =~= name);
    assert forall|k: int| 0 <= k < digits.len() implies #[trigger] digits[k] != '.' by {
        assert(text::is_digit(digits[k]));
    }
    text::lemma_first_index_unique(digits, '.', digits.len() as int);
    assert(whole_part(digits) =~= digits);
    assert(digits + fraction_part(digits) =~= digits);
    lemma_pow0(10);
    assert(name.skip(name.len() as int) =~= Seq::<char>::empty());
    assert(total_ms(name.skip(name.len() as int)) == Some(0int));
    assert(number_ms(digits, factor) == saturated(n * factor));
}

} // verus!
