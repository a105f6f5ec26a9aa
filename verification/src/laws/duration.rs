//! Durations in the notation of Go.

use vstd::arithmetic::power::*;
use vstd::prelude::*;

use crate::duration;
use crate::duration::{checked_parse_go_duration, duration_fits, parse_go_duration, Spelled};
use crate::laws::text::lemma_number as lemma_number_value;
use crate::laws::text::{digits_only, number};
use crate::text;
use crate::text::{parse_unsigned, push_decimal};

verus! {

/// The milliseconds in the unit, where `name` is the name of one.
pub open spec fn unit_ms(name: Seq<char>) -> Option<int> {
    if name == "h"@ {
        Some(3_600_000)
    } else if name == "m"@ {
        Some(60_000)
    } else if name == "s"@ {
        Some(1_000)
    } else if name == "ms"@ {
        Some(1)
    } else {
        None
    }
}

/// A duration of `ms` milliseconds, or of as many as 64 bits hold.
pub open spec fn lasts(r: Spelled, ms: int) -> bool {
    r == Spelled::Milliseconds(
        if ms > u64::MAX {
            u64::MAX
        } else {
            ms as u64
        },
    )
}

proof fn lemma_unit(name: Seq<char>)
    requires
        unit_ms(name) is Some,
    ensures
        0 < name.len() <= 2,
        !duration::number_char(name[0]),
        duration::unit(name) == Some((unit_ms(name)->0, name.len() as int)),
{
    reveal_strlit("h");
    reveal_strlit("m");
    reveal_strlit("s");
    reveal_strlit("ms");
}

/// One number with its unit.
proof fn lemma_number(number: Seq<char>, name: Seq<char>)
    requires
        unit_ms(name) is Some,
        duration::proper_number(number),
        number.len() > 0,
        forall|k: int| 0 <= k < number.len() ==> duration::number_char(#[trigger] number[k]),
    ensures
        duration::duration_ms(number + name) == Some(
            duration::number_ms(number, unit_ms(name)->0),
        ),
{
    let s = number + name;
    let n = number.len() as int;
    lemma_unit(name);
    assert forall|k: int| 0 <= k < n implies duration::number_char(#[trigger] s[k]) by {
        assert(s[k] == number[k]);
    }
    assert(s[n] == name[0]);
    duration::lemma_number_len_unique(s, n);
    assert(s.take(n) =~= number);
    assert(s.skip(n) =~= name);
    assert(name.skip(name.len() as int) =~= Seq::<char>::empty());
    assert(duration::total_ms(name.skip(name.len() as int)) == Some(0int));
}

/// A whole number of hours, minutes, seconds or milliseconds, written in decimal, lasts
/// that many of them, as far as 64 bits hold the milliseconds.
pub proof fn law_whole_numbers_of_units(
    n: u64,
    empty: String,
    written: String,
    name: Seq<char>,
    s: &str,
    r: Spelled,
)
    requires
        unit_ms(name) is Some,
        empty@.len() == 0,
        exists|out: &mut String|
            *out == empty && *final(out) == written && #[trigger] call_ensures(
                push_decimal,
                (out, n),
                (),
            ),
        s@ == written@ + name,
        call_ensures(checked_parse_go_duration, (s,), r),
    ensures
        lasts(r, n * unit_ms(name)->0),
{
    let digits = text::decimal(n as nat);
    assert(written@ =~= digits);
    duration::lemma_decimal(n as nat);
    assert forall|k: int| 0 <= k < digits.len() implies #[trigger] digits[k] != '.' by {
        assert(text::is_digit(digits[k]));
    }
    text::lemma_first_index_unique(digits, '.', digits.len() as int);
    assert(duration::whole_part(digits) =~= digits);
    assert(digits + duration::fraction_part(digits) =~= digits);
    assert forall|k: int| 0 <= k < digits.len() implies duration::number_char(
        #[trigger] digits[k],
    ) by {
        assert(text::is_digit(digits[k]));
    }
    lemma_number(digits, name);
    lemma_pow0(10);
}

/// A number with a point lasts as many units as its digits say without the point,
/// divided by ten for each digit behind the point; what is left of a millisecond is
/// dropped.
pub proof fn law_fractions_of_units(
    whole: Seq<char>,
    fraction: Seq<char>,
    digits: &str,
    n: u64,
    name: Seq<char>,
    s: &str,
    r: Spelled,
)
    requires
        unit_ms(name) is Some,
        digits@ == whole + fraction,
        digits@.len() > 0 && digits@[0] != '+',
        call_ensures(parse_unsigned, (digits, u64::MAX), Some(n)),
        s@ == whole + seq!['.'] + fraction + name,
        call_ensures(checked_parse_go_duration, (s,), r),
    ensures
        lasts(r, (n * unit_ms(name)->0) / pow(10, fraction.len())),
{
    let number = whole + seq!['.'] + fraction;
    let k = whole.len() as int;
    assert forall|i: int| 0 <= i < k implies text::is_digit(#[trigger] number[i]) by {
        assert(number[i] == digits@[i]);
    }
    assert forall|i: int| k < i < number.len() implies text::is_digit(#[trigger] number[i]) by {
        assert(number[i] == digits@[i - 1]);
    }
    assert(number[k] == '.');
    text::lemma_first_index_unique(number, '.', k);
    assert(duration::whole_part(number) =~= whole);
    assert(duration::fraction_part(number) =~= fraction);
    assert forall|i: int| 0 <= i < number.len() implies duration::number_char(
        #[trigger] number[i],
    ) by {
        if i == k {
        } else {
            assert(text::is_digit(number[i]));
        }
    }
    lemma_number(number, name);
    assert(s@ =~= number + name);
}

/// Any digits, with a point among them or without one, last as many units as they denote
/// without the point, divided by ten for each digit behind the point; what is left of a
/// millisecond is dropped.
pub proof fn law_digits_of_units(
    whole: Seq<char>,
    pointed: bool,
    fraction: Seq<char>,
    name: Seq<char>,
    s: &str,
    r: Spelled,
)
    requires
        unit_ms(name) is Some,
        digits_only(whole),
        digits_only(fraction),
        whole.len() + fraction.len() > 0,
        !pointed ==> fraction.len() == 0,
        s@ == whole + (if pointed {
            seq!['.']
        } else {
            seq![]
        }) + fraction + name,
        call_ensures(checked_parse_go_duration, (s,), r),
    ensures
        lasts(r, (number(whole + fraction) * unit_ms(name)->0) / pow(10, fraction.len())),
{
    let spelled = whole + (if pointed {
        seq!['.']
    } else {
        seq![]
    }) + fraction;
    let k = whole.len() as int;
    let digits = whole + fraction;
    assert forall|i: int| 0 <= i < digits.len() implies '0' <= #[trigger] digits[i] <= '9' by {
        if i < k {
            assert(digits[i] == whole[i]);
        } else {
            assert(digits[i] == fraction[i - k]);
        }
    }
    lemma_number_value(digits);
    assert forall|i: int| 0 <= i < spelled.len() implies duration::number_char(
        #[trigger] spelled[i],
    ) by {
        if i < k {
            assert(spelled[i] == whole[i]);
        } else if pointed && i > k {
            assert(spelled[i] == fraction[i - k - 1]);
        }
    }
    assert forall|i: int| 0 <= i < k implies spelled[i] != '.' by {
        assert(spelled[i] == whole[i]);
    }
    text::lemma_first_index_unique(spelled, '.', k);
    assert(duration::whole_part(spelled) =~= whole);
    assert(duration::fraction_part(spelled) =~= fraction);
    lemma_number(spelled, name);
    assert(s@ =~= spelled + name);
}

proof fn lemma_total_is_positive(s: Seq<char>)
    ensures
        duration::total_ms(s) matches Some(ms) ==> ms >= 0,
    decreases s.len(),
{
    if s.len() > 0 && duration::total_ms(s) is Some {
        let n = duration::number_len(s);
        duration::lemma_number_len(s);
        let rest = s.skip(n);
        let (factor, width) = duration::unit(rest)->0;
        lemma_total_is_positive(rest.skip(width));
        let number = s.take(n);
        let fraction = duration::fraction_part(number);
        let value = text::digits_value(duration::whole_part(number) + fraction) as int;
        lemma_pow_positive(10, fraction.len());
        assert(value * factor >= 0) by (nonlinear_arith)
            requires
                value >= 0,
                factor > 0,
        ;
        vstd::arithmetic::div_mod::lemma_div_pos_is_pos(
            value * factor,
            pow(10, fraction.len()),
        );
    }
}

proof fn lemma_front_is_taken(a: Seq<char>, b: Seq<char>)
    requires
        duration::total_ms(a) is Some,
        b.len() > 0,
        !(a.len() > 0 && a.last() == 'm' && b[0] == 's'),
    ensures
        duration::total_ms(a + b) == (match duration::total_ms(b) {
            Some(ms) => Some(duration::total_ms(a)->0 + ms),
            None => None,
        }),
    decreases a.len(),
{
    if a.len() == 0 {
        assert(a + b =~= b);
    } else {
        let n = duration::number_len(a);
        let all = a + b;
        duration::lemma_number_len(a);
        let rest = a.skip(n);
        assert forall|k: int| 0 <= k < n implies duration::number_char(#[trigger] all[k]) by {
            assert(all[k] == a[k]);
        }
        assert(rest[0] == a[n]);
        assert(all[n] == a[n]);
        duration::lemma_number_len_unique(all, n);
        assert(all.take(n) =~= a.take(n));
        assert(all.skip(n) =~= rest + b);
        let (factor, width) = duration::unit(rest)->0;
        assert((rest + b)[0] == rest[0]);
        if rest.len() > 1 {
            assert((rest + b)[1] == rest[1]);
        } else {
            assert((rest + b)[1] == b[0]);
            assert(a.last() == rest[0]);
        }
        assert(duration::unit(rest + b) == Some((factor, width)));
        assert((rest + b).skip(width) =~= rest.skip(width) + b);
        let tail = rest.skip(width);
        if tail.len() > 0 {
            assert(tail.last() == a.last());
        }
        lemma_front_is_taken(tail, b);
    }
}

/// What stands behind a duration decides whether the whole is one: it is none exactly
/// where the rest is none. The exception is an `s` behind minutes, which makes
/// milliseconds of them. A whole with a part that is too long is too long.
pub proof fn law_rest_decides(
    a: &str,
    b: &str,
    both: &str,
    x: Spelled,
    y: Spelled,
    r: Spelled,
)
    requires
        both@ == a@ + b@,
        b@.len() > 0,
        !(a@.last() == 'm' && b@[0] == 's'),
        call_ensures(checked_parse_go_duration, (a,), x),
        x != Spelled::Nothing,
        call_ensures(checked_parse_go_duration, (b,), y),
        call_ensures(checked_parse_go_duration, (both,), r),
    ensures
        r == Spelled::Nothing <==> y == Spelled::Nothing,
        x == Spelled::TooLong && y != Spelled::Nothing ==> r == Spelled::TooLong,
        y == Spelled::TooLong ==> r == Spelled::TooLong,
{
    lemma_front_is_taken(a@, b@);
    lemma_total_is_positive(a@);
    lemma_total_is_positive(b@);
}

/// Two durations, one behind the other, last as long as both together; where that is
/// more than 64 bits hold, they are too long.
pub proof fn law_durations_add_up(
    a: &str,
    b: &str,
    both: &str,
    x: u64,
    y: u64,
    r: Spelled,
)
    requires
        both@ == a@ + b@,
        call_ensures(checked_parse_go_duration, (a,), Spelled::Milliseconds(x)),
        call_ensures(checked_parse_go_duration, (b,), Spelled::Milliseconds(y)),
        call_ensures(checked_parse_go_duration, (both,), r),
    ensures
        x + y <= u64::MAX ==> r == Spelled::Milliseconds((x + y) as u64),
        x + y > u64::MAX ==> r == Spelled::TooLong,
{
    duration::law_durations_add_up(a@, b@);
}

proof fn lemma_duration_chars(s: Seq<char>)
    requires
        duration::total_ms(s) is Some,
    ensures
        s.len() > 0 ==> s.last() == 's' || s.last() == 'm' || s.last() == 'h',
        forall|i: int|
            0 <= i < s.len() ==> {
                let c = #[trigger] s[i];
                '0' <= c <= '9' || c == '.' || c == 's' || c == 'm' || c == 'h'
            },
    decreases s.len(),
{
    if s.len() > 0 {
        let n = duration::number_len(s);
        duration::lemma_number_len(s);
        let rest = s.skip(n);
        let (_, width) = duration::unit(rest)->0;
        let tail = rest.skip(width);
        lemma_duration_chars(tail);
        assert(rest[0] == s[n]);
        if width == 2 {
            assert(rest[1] == s[n + 1]);
        }
        assert forall|i: int| 0 <= i < s.len() implies ({
            let c = #[trigger] s[i];
            '0' <= c <= '9' || c == '.' || c == 's' || c == 'm' || c == 'h'
        }) by {
            if i < n {
                assert(duration::number_char(s[i]));
            } else if i >= n + width {
                assert(tail[i - n - width] == s[i]);
            }
        }
        if tail.len() > 0 {
            assert(tail.last() == s.last());
        }
    }
}

/// What is no duration: nothing at all, a text that does not begin with a number or end
/// with a unit, one with another character than digits, points and those of the units,
/// and one with a number that has two points or no digit.
pub proof fn law_what_is_no_duration(
    s: &str,
    r: Spelled,
    i: int,
    a: Seq<char>,
    b: Seq<char>,
    rest: Seq<char>,
)
    requires
        call_ensures(checked_parse_go_duration, (s,), r),
        ({
            ||| s@.len() == 0
            ||| s@.len() > 0 && !('0' <= s@[0] <= '9') && s@[0] != '.'
            ||| s@.len() > 0 && s@.last() != 's' && s@.last() != 'm' && s@.last() != 'h'
            ||| 0 <= i < s@.len() && !('0' <= s@[i] <= '9') && s@[i] != '.' && s@[i] != 's' && s@[i]
                != 'm' && s@[i] != 'h'
            ||| digits_only(a) && digits_only(b) && s@ == a + seq!['.'] + b + seq!['.'] + rest
            ||| s@ == seq!['.'] + rest && rest.len() > 0 && !('0' <= rest[0] <= '9')
        }),
    ensures
        r == Spelled::Nothing,
{
    let t = s@;
    if t.len() > 0 && duration::total_ms(t) is Some {
        duration::lemma_begins_with_number(t);
        lemma_duration_chars(t);
        let n = duration::number_len(t);
        duration::lemma_number_len(t);
        let number = t.take(n);
        let digits = duration::whole_part(number) + duration::fraction_part(number);
        if digits_only(a) && digits_only(b) && t == a + seq!['.'] + b + seq!['.'] + rest {
            lemma_number_value(a);
            lemma_number_value(b);
            let k = a.len() as int;
            let m = k + 1 + b.len();
            assert forall|j: int| 0 <= j <= m implies duration::number_char(#[trigger] t[j]) by {
                if j < k {
                    assert(t[j] == a[j]);
                } else if j > k && j < m {
                    assert(t[j] == b[j - k - 1]);
                }
            }
            if n <= m {
                assert(duration::number_char(t[n]));
            }
            assert forall|j: int| 0 <= j < k implies number[j] != '.' by {
                assert(t[j] == a[j]);
                assert(text::is_digit(a[j]));
            }
            assert(number[k] == '.');
            text::lemma_first_index_unique(number, '.', k);
            assert(digits[m - 1] == number[m]);
            assert(number[m] == '.');
            assert(!text::is_digit(digits[m - 1]));
        }
        if t == seq!['.'] + rest && rest.len() > 0 && !('0' <= rest[0] <= '9') {
            assert(t[0] == '.' && t[1] == rest[0]);
            assert(number[0] == '.') by {
                if n == 0 {
                    assert(duration::number_char(t[0]));
                }
            }
            text::lemma_first_index_unique(number, '.', 0);
            if n > 1 {
                assert(digits[0] == number[1]);
                assert(!text::is_digit(digits[0]));
            } else {
                assert(digits.len() == 0);
            }
        }
    }
}

/// A duration that fits is read as so many milliseconds, and what is none as none; what
/// is too long does not fit.
pub proof fn law_durations_are_read_where_they_fit(
    s: &str,
    r: Spelled,
    plain: Option<u64>,
    fits: bool,
)
    requires
        call_ensures(checked_parse_go_duration, (s,), r),
        call_ensures(duration_fits, (s,), fits),
        fits ==> call_ensures(parse_go_duration, (s,), plain),
    ensures
        fits <==> r != Spelled::TooLong,
        fits ==> call_requires(parse_go_duration, (s,)),
        r matches Spelled::Milliseconds(ms) ==> plain == Some(ms),
        r == Spelled::Nothing ==> plain is None,
{
}

} // verus!
