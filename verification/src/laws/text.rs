//! Character-level text operations.

use vstd::prelude::*;

use crate::text;
use crate::text::{
    chars_of, contains, find_char, find_last, is_white_space, parse_unsigned, push_decimal, same_text,
    starts_with, string_of, trim, trim_range,
};

verus! {

/// `s` holds `pattern`.
pub open spec fn holds(s: Seq<char>, pattern: Seq<char>) -> bool {
    exists|a: Seq<char>, b: Seq<char>| s == #[trigger] (a + pattern + b)
}

pub proof fn lemma_holds(s: Seq<char>, pattern: Seq<char>)
    ensures
        holds(s, pattern) == text::occurs(s, pattern),
{
    if holds(s, pattern) {
        let (a, b) = choose|a: Seq<char>, b: Seq<char>| s == #[trigger] (a + pattern + b);
        assert(s.subrange(a.len() as int, (a.len() + pattern.len()) as int) =~= pattern);
        assert(text::matches_at(s, pattern, a.len() as int));
    }
    if text::occurs(s, pattern) {
        let i = choose|i: int| text::matches_at(s, pattern, i);
        let (a, b) = (s.take(i), s.skip(i + pattern.len()));
        assert(s =~= a + pattern + b);
    }
}

/// A pattern is found where the text is made of it: at the last place, where there are
/// several, and at the front, where the text begins with it.
pub proof fn law_patterns_are_found(
    chars: Vec<char>,
    pattern: Vec<char>,
    last: Option<usize>,
    starts: bool,
    front: Seq<char>,
    back: Seq<char>,
    s: &str,
    part: &str,
    inside: bool,
)
    requires
        call_ensures(find_last, (&chars, &pattern), last),
        call_ensures(starts_with, (&chars, &pattern), starts),
        call_ensures(contains, (s, part), inside),
    ensures
        last is Some <==> holds(chars@, pattern@),
        last matches Some(i) ==> i + pattern@.len() <= chars@.len() && chars@ == chars@.take(
            i as int,
        ) + pattern@ + chars@.skip(i + pattern@.len()),
        last is Some && chars@ == front + pattern@ + back ==> front.len() <= last->0,
        chars@ == pattern@ + back ==> starts,
        starts ==> chars@ == pattern@ + chars@.skip(pattern@.len() as int),
        inside <==> holds(s@, part@),
{
    lemma_holds(chars@, pattern@);
    lemma_holds(s@, part@);
    text::lemma_last_match(chars@, pattern@);
    if let Some(i) = last {
        assert(chars@ =~= chars@.take(i as int) + pattern@ + chars@.skip(i + pattern@.len()));
        if chars@ == front + pattern@ + back {
            let at = front.len() as int;
            assert(chars@.subrange(at, at + pattern@.len()) =~= pattern@);
            assert(text::matches_at(chars@, pattern@, at));
        }
    }
    if chars@ == pattern@ + back {
        assert(chars@.subrange(0, pattern@.len() as int) =~= pattern@);
    }
    if starts {
        assert(chars@ =~= pattern@ + chars@.skip(pattern@.len() as int));
    }
}

/// A character is found at the first place from a position on; where it does not come
/// any more, that is the end.
pub proof fn law_first_place_of_a_character(chars: Vec<char>, from: usize, c: char, r: usize, k: int)
    requires
        from <= chars@.len(),
        call_ensures(find_char, (&chars, from, c), r),
    ensures
        from <= r <= chars@.len(),
        r < chars@.len() ==> chars@[r as int] == c,
        from <= k < r ==> chars@[k] != c,
{
    let rest = chars@.skip(from as int);
    text::lemma_first_index(rest, c);
    if r < chars@.len() {
        assert(rest[r - from] == chars@[r as int]);
    }
    if from <= k < r {
        assert(rest[k - from] == chars@[k]);
    }
}

/// Texts are taken apart into their characters and put together from them, and are the
/// same where the characters are.
pub proof fn law_texts_are_their_characters(
    s: &str,
    chars: Vec<char>,
    from: usize,
    to: usize,
    part: String,
    bare: String,
    t: &str,
    same: bool,
    piece: &str,
    trimmed: String,
)
    requires
        call_ensures(chars_of, (s,), chars),
        from <= to <= chars@.len(),
        call_ensures(string_of, (&chars, from, to), part),
        call_ensures(trim_range, (&chars, from, to), bare),
        call_ensures(same_text, (s, t), same),
        piece@ == part@,
        call_ensures(trim, (piece,), trimmed),
    ensures
        chars@ == s@,
        part@ == s@.subrange(from as int, to as int),
        same <==> s@ == t@,
        bare@ == trimmed@,
{
}

/// The characters that count as white space are these 25.
pub proof fn law_white_space_is_what_unicode_says(c: char, r: bool)
    requires
        call_ensures(is_white_space, (c,), r),
    ensures
        ({
            let n = c as int;
            r <==> n == 0x20 || n == 0x09 || n == 0x0a || n == 0x0b || n == 0x0c || n == 0x0d || n
                == 0x85 || n == 0xa0 || n == 0x1680 || (0x2000 <= n && n <= 0x200a) || n == 0x2028
                || n == 0x2029 || n == 0x202f || n == 0x205f || n == 0x3000
        }),
{
}

pub proof fn lemma_trimmed_of(left: Seq<char>, core: Seq<char>, right: Seq<char>)
    requires
        forall|i: int| 0 <= i < left.len() ==> text::white_space(#[trigger] left[i]),
        forall|i: int| 0 <= i < right.len() ==> text::white_space(#[trigger] right[i]),
        core.len() > 0 ==> !text::white_space(core[0]) && !text::white_space(core.last()),
    ensures
        text::trimmed(left + core + right) == core,
    decreases left.len() + right.len(),
{
    let all = left + core + right;
    if left.len() > 0 {
        let rest = left.drop_first();
        assert forall|i: int| 0 <= i < rest.len() implies text::white_space(#[trigger] rest[i]) by {
            assert(rest[i] == left[i + 1]);
        }
        assert(all[0] == left[0]);
        assert(all.drop_first() =~= rest + core + right);
        lemma_trimmed_of(rest, core, right);
    } else if core.len() == 0 {
        if right.len() > 0 {
            let rest = right.drop_first();
            assert forall|i: int| 0 <= i < rest.len() implies text::white_space(
                #[trigger] rest[i],
            ) by {
                assert(rest[i] == right[i + 1]);
            }
            assert(all[0] == right[0]);
            assert(all.drop_first() =~= left + core + rest);
            lemma_trimmed_of(left, core, rest);
        } else {
            assert(all =~= core);
        }
    } else {
        assert(all[0] == core[0]);
        assert(text::trim_front(all) == all);
        lemma_trim_back_of(core, right);
        assert(all =~= core + right);
    }
}

proof fn lemma_trim_back_of(core: Seq<char>, right: Seq<char>)
    requires
        forall|i: int| 0 <= i < right.len() ==> text::white_space(#[trigger] right[i]),
        core.len() > 0,
        !text::white_space(core.last()),
    ensures
        text::trim_back(core + right) == core,
    decreases right.len(),
{
    let all = core + right;
    if right.len() > 0 {
        let rest = right.drop_last();
        assert forall|i: int| 0 <= i < rest.len() implies text::white_space(#[trigger] rest[i]) by {
            assert(rest[i] == right[i]);
        }
        assert(all.last() == right.last());
        assert(text::white_space(right[right.len() - 1]));
        assert(all.drop_last() =~= core + rest);
        lemma_trim_back_of(core, rest);
    } else {
        assert(all =~= core);
    }
}

/// White space around a text is dropped, and nothing else: a text that begins and ends
/// with another character stays as it is.
pub proof fn law_white_space_around_is_dropped(
    left: Seq<char>,
    core: Seq<char>,
    right: Seq<char>,
    whole: &str,
    r: String,
)
    requires
        whole@ == left + core + right,
        forall|i: int|
            0 <= i < left.len() ==> call_ensures(is_white_space, (#[trigger] left[i],), true),
        forall|i: int|
            0 <= i < right.len() ==> call_ensures(is_white_space, (#[trigger] right[i],), true),
        core.len() > 0 ==> call_ensures(is_white_space, (core[0],), false) && call_ensures(
            is_white_space,
            (core.last(),),
            false,
        ),
        call_ensures(trim, (whole,), r),
    ensures
        r@ == core,
{
    lemma_trimmed_of(left, core, right);
}

/// A number is written in decimal digits: up to 9 as one digit, and beyond that as its
/// tenth with its last digit behind it.
pub proof fn law_numbers_are_written_in_decimal(before: String, n: u64, after: String, tenth: String)
    requires
        exists|s: &mut String|
            *s == before && *final(s) == after && #[trigger] call_ensures(push_decimal, (s, n), ()),
        exists|s: &mut String|
            *s == before && *final(s) == tenth && #[trigger] call_ensures(
                push_decimal,
                (s, (n / 10) as u64),
                (),
            ),
    ensures
        n < 10 ==> after@ == before@.push((48 + n as u8) as char),
        n >= 10 ==> after@ == tenth@.push((48 + (n % 10) as u8) as char),
{
    if n < 10 {
        assert(after@ =~= before@.push((48 + n as u8) as char));
    } else {
        assert(after@ =~= tenth@.push((48 + (n % 10) as u8) as char));
    }
}

/// The number that decimal digits denote.
pub open spec fn number(digits: Seq<char>) -> nat
    decreases digits.len(),
{
    if digits.len() == 0 {
        0
    } else {
        (10 * number(digits.drop_last()) + (digits.last() as int - '0' as int)) as nat
    }
}

/// All of the text are decimal digits.
pub open spec fn digits_only(s: Seq<char>) -> bool {
    forall|i: int| 0 <= i < s.len() ==> '0' <= #[trigger] s[i] <= '9'
}

pub proof fn lemma_number(digits: Seq<char>)
    requires
        digits_only(digits),
    ensures
        text::all_digits(digits),
        text::digits_value(digits) == number(digits),
    decreases digits.len(),
{
    if digits.len() > 0 {
        let front = digits.drop_last();
        assert forall|i: int| 0 <= i < front.len() implies '0' <= #[trigger] front[i] <= '9' by {
            assert(front[i] == digits[i]);
        }
        lemma_number(front);
        assert('0' <= digits[digits.len() - 1] <= '9');
    }
    assert forall|i: int| 0 <= i < digits.len() implies text::is_digit(#[trigger] digits[i]) by {}
}

/// Digits, with or without a `+` before them, are read as the number that they denote,
/// where it is at most the largest one allowed.
pub proof fn law_digits_are_read_as_their_number(
    digits: Seq<char>,
    max: u64,
    plain: &str,
    plus: &str,
    r: Option<u64>,
    p: Option<u64>,
)
    requires
        digits.len() > 0,
        digits_only(digits),
        plain@ == digits,
        plus@ == seq!['+'] + digits,
        call_ensures(parse_unsigned, (plain, max), r),
        call_ensures(parse_unsigned, (plus, max), p),
    ensures
        number(digits) <= max ==> r == Some(number(digits) as u64),
        number(digits) > max ==> r is None,
        p == r,
{
    lemma_number(digits);
    assert('0' <= digits[0] <= '9');
    assert(plus@.drop_first() =~= digits);
}

/// A number that is written in decimal, with or without a `+`, is read back where it is
/// at most the largest one allowed, and not at all where it is larger. A text without a
/// digit, or with another character, is no number.
pub proof fn law_written_numbers_are_read_back(
    n: u64,
    written: String,
    empty: String,
    max: u64,
    plain: &str,
    plus: &str,
    r: Option<u64>,
    p: Option<u64>,
    odd: &str,
    i: int,
    q: Option<u64>,
)
    requires
        empty@.len() == 0,
        exists|s: &mut String|
            *s == empty && *final(s) == written && #[trigger] call_ensures(
                push_decimal,
                (s, n),
                (),
            ),
        plain@ == written@,
        plus@ == seq!['+'] + written@,
        call_ensures(parse_unsigned, (plain, max), r),
        call_ensures(parse_unsigned, (plus, max), p),
        odd@.len() == 0 || (0 <= i < odd@.len() && !('0' <= odd@[i] <= '9') && !(i == 0 && odd@[0]
            == '+')) || odd@ == seq!['+'],
        call_ensures(parse_unsigned, (odd, max), q),
    ensures
        r == p,
        n <= max ==> r == Some(n),
        n > max ==> r is None,
        q is None,
{
    crate::duration::lemma_decimal(n as nat);
    assert(written@ =~= text::decimal(n as nat));
    assert(plus@.drop_first() =~= written@);
    assert(text::is_digit(written@[0]));
    let digits = if odd@.len() > 0 && odd@[0] == '+' {
        odd@.drop_first()
    } else {
        odd@
    };
    if odd@.len() > 0 && 0 <= i < odd@.len() && !('0' <= odd@[i] <= '9') && !(i == 0 && odd@[0]
        == '+') {
        if odd@[0] == '+' {
            assert(digits[i - 1] == odd@[i]);
        } else {
            assert(digits[i] == odd@[i]);
        }
        assert(!text::all_digits(digits));
    }
}

} // verus!
