//! Character-level text operations and their models.
//!
//! A string is modelled by its sequence of characters, so every function here
//! says what it does to a `Seq<char>`.

use vstd::prelude::*;
use vstd::string::*;

verus! {

/// `String::push` appends one character to the end of the string.
pub assume_specification[ String::push ](s: &mut String, c: char)
    ensures
        final(s)@ == old(s)@.push(c),
;

/// The texts of a sequence of strings.
pub open spec fn views(strings: Seq<String>) -> Seq<Seq<char>> {
    strings.map_values(|s: String| s@)
}

/// The texts of a sequence of pairs of strings.
pub open spec fn pair_views(pairs: Seq<(String, String)>) -> Seq<(Seq<char>, Seq<char>)> {
    pairs.map_values(|p: (String, String)| (p.0@, p.1@))
}

/// The text of an optional string.
pub open spec fn opt_view(s: Option<String>) -> Option<Seq<char>> {
    match s {
        Some(text) => Some(text@),
        None => None,
    }
}

/// The text of an optional borrowed string.
pub open spec fn opt_text(s: Option<&str>) -> Option<Seq<char>> {
    match s {
        Some(text) => Some(text@),
        None => None,
    }
}

/// The characters of `s`, in order.
pub fn chars_of(s: &str) -> (chars: Vec<char>)
    ensures
        chars@ == s@,
{
    let mut chars: Vec<char> = Vec::new();
    for c in it: s.chars()
        invariant
            it.seq() == s@,
            chars@ == s@.take(it.index() as int),
    {
        proof {
            assert(s@.take(it.index() as int + 1) =~= s@.take(it.index() as int).push(c));
        }
        chars.push(c);
    }
    assert(s@.take(s@.len() as int) =~= s@);
    chars
}

/// The string made of `chars[from..to]`.
pub fn string_of(chars: &Vec<char>, from: usize, to: usize) -> (s: String)
    requires
        from <= to <= chars@.len(),
    ensures
        s@ == chars@.subrange(from as int, to as int),
{
    let mut s = String::new();
    let mut i: usize = from;
    assert(chars@.subrange(from as int, from as int) =~= Seq::<char>::empty());
    while i < to
        invariant
            from <= i <= to <= chars@.len(),
            s@ == chars@.subrange(from as int, i as int),
        decreases to - i,
    {
        s.push(chars[i]);
        assert(chars@.subrange(from as int, i as int + 1) =~= chars@.subrange(
            from as int,
            i as int,
        ).push(chars@[i as int]));
        i = i + 1;
    }
    s
}

/// Whether two strings hold the same characters.
pub fn same_text(a: &str, b: &str) -> (r: bool)
    ensures
        r == (a@ == b@),
{
    let left = chars_of(a);
    let right = chars_of(b);
    if left.len() != right.len() {
        return false;
    }
    let mut i: usize = 0;
    while i < left.len()
        invariant
            i <= left@.len(),
            left@ == a@,
            right@ == b@,
            left@.len() == right@.len(),
            forall|k: int| 0 <= k < i ==> left@[k] == right@[k],
        decreases left@.len() - i,
    {
        if left[i] != right[i] {
            return false;
        }
        i = i + 1;
    }
    assert(a@ =~= b@);
    true
}

/// `pattern` occurs in `s` at position `i`.
pub open spec fn matches_at(s: Seq<char>, pattern: Seq<char>, i: int) -> bool {
    &&& 0 <= i
    &&& i + pattern.len() <= s.len()
    &&& s.subrange(i, i + pattern.len()) == pattern
}

/// `pattern` occurs somewhere in `s`.
pub open spec fn occurs(s: Seq<char>, pattern: Seq<char>) -> bool {
    exists|i: int| matches_at(s, pattern, i)
}

/// The greatest position at most `bound` at which `pattern` occurs in `s`.
pub open spec fn last_match_to(s: Seq<char>, pattern: Seq<char>, bound: int) -> Option<int>
    decreases bound + 1,
{
    if bound < 0 {
        None
    } else if matches_at(s, pattern, bound) {
        Some(bound)
    } else {
        last_match_to(s, pattern, bound - 1)
    }
}

/// The greatest position at which `pattern` occurs in `s`.
pub open spec fn last_match(s: Seq<char>, pattern: Seq<char>) -> Option<int> {
    last_match_to(s, pattern, s.len() - pattern.len())
}

pub proof fn lemma_last_match_to(s: Seq<char>, pattern: Seq<char>, bound: int)
    ensures
        match last_match_to(s, pattern, bound) {
            Some(i) => {
                &&& i <= bound
                &&& matches_at(s, pattern, i)
                &&& forall|j: int| i < j <= bound ==> !matches_at(s, pattern, j)
            },
            None => forall|j: int| j <= bound ==> !matches_at(s, pattern, j),
        },
    decreases bound + 1,
{
    if bound >= 0 && !matches_at(s, pattern, bound) {
        lemma_last_match_to(s, pattern, bound - 1);
    }
}

/// The position that `last_match` yields is an occurrence, none lies behind it,
/// and it yields a position exactly where there is an occurrence.
pub proof fn lemma_last_match(s: Seq<char>, pattern: Seq<char>)
    ensures
        match last_match(s, pattern) {
            Some(i) => {
                &&& matches_at(s, pattern, i)
                &&& forall|j: int| i < j ==> !matches_at(s, pattern, j)
            },
            None => !occurs(s, pattern),
        },
{
    lemma_last_match_to(s, pattern, s.len() - pattern.len());
}

/// An occurrence behind which there is no other is the one `last_match` yields.
pub proof fn lemma_last_match_unique(s: Seq<char>, pattern: Seq<char>, i: int)
    requires
        matches_at(s, pattern, i),
        forall|j: int| i < j ==> !matches_at(s, pattern, j),
    ensures
        last_match(s, pattern) == Some(i),
{
    lemma_last_match(s, pattern);
}

/// Whether `pattern` occurs in `text` at position `at`.
fn match_here(text: &Vec<char>, pattern: &Vec<char>, at: usize) -> (r: bool)
    requires
        at + pattern@.len() <= text@.len(),
    ensures
        r == matches_at(text@, pattern@, at as int),
{
    let total: usize = text.len();
    let mut k: usize = 0;
    while k < pattern.len()
        invariant
            k <= pattern@.len(),
            total == text@.len(),
            at + pattern@.len() <= text@.len(),
            forall|j: int| 0 <= j < k ==> text@[at + j] == pattern@[j],
        decreases pattern@.len() - k,
    {
        if text[at + k] != pattern[k] {
            assert(text@.subrange(at as int, at + pattern@.len())[k as int] != pattern@[k as int]);
            return false;
        }
        k = k + 1;
    }
    assert(text@.subrange(at as int, at + pattern@.len()) =~= pattern@);
    true
}

/// The last position at which `pattern` occurs in `text`.
pub fn find_last(text: &Vec<char>, pattern: &Vec<char>) -> (r: Option<usize>)
    ensures
        match r {
            Some(i) => last_match(text@, pattern@) == Some(i as int),
            None => last_match(text@, pattern@) is None,
        },
{
    if pattern.len() > text.len() {
        return None;
    }
    let mut i: usize = text.len() - pattern.len();
    loop
        invariant
            i + pattern@.len() <= text@.len(),
            last_match(text@, pattern@) == last_match_to(text@, pattern@, i as int),
        decreases i,
    {
        if match_here(text, pattern, i) {
            return Some(i);
        }
        if i == 0 {
            assert(last_match_to(text@, pattern@, -1) is None);
            return None;
        }
        i = i - 1;
    }
}

/// Whether `pattern` occurs in `text`.
pub fn contains(text: &str, pattern: &str) -> (r: bool)
    ensures
        r == occurs(text@, pattern@),
{
    let found = find_last(&chars_of(text), &chars_of(pattern));
    proof {
        lemma_last_match(text@, pattern@);
    }
    found.is_some()
}

/// `s` begins with `prefix`.
pub open spec fn begins_with(s: Seq<char>, prefix: Seq<char>) -> bool {
    matches_at(s, prefix, 0)
}

/// Whether `text` begins with `prefix`.
pub fn starts_with(text: &Vec<char>, prefix: &Vec<char>) -> (r: bool)
    ensures
        r == begins_with(text@, prefix@),
{
    prefix.len() <= text.len() && match_here(text, prefix, 0)
}

/// How many characters of `s` stand before the first `c`; all of them where
/// `c` does not occur.
pub open spec fn first_index(s: Seq<char>, c: char) -> int
    decreases s.len(),
{
    if s.len() == 0 || s[0] == c {
        0
    } else {
        1 + first_index(s.drop_first(), c)
    }
}

/// The part of `s` before the first `c`; all of `s` where `c` does not occur.
pub open spec fn before(s: Seq<char>, c: char) -> Seq<char> {
    s.take(first_index(s, c))
}

pub proof fn lemma_first_index(s: Seq<char>, c: char)
    ensures
        0 <= first_index(s, c) <= s.len(),
        forall|k: int| 0 <= k < first_index(s, c) ==> s[k] != c,
        first_index(s, c) < s.len() ==> s[first_index(s, c)] == c,
    decreases s.len(),
{
    if s.len() > 0 && s[0] != c {
        let rest = s.drop_first();
        lemma_first_index(rest, c);
        assert forall|k: int| 0 <= k < first_index(s, c) implies s[k] != c by {
            if k > 0 {
                assert(rest[k - 1] == s[k]);
            }
        }
        if first_index(s, c) < s.len() {
            assert(rest[first_index(rest, c)] == s[first_index(s, c)]);
        }
    }
}

/// The position `k` is `first_index` when no `c` stands before it and `c`, or
/// the end, stands at it.
pub proof fn lemma_first_index_unique(s: Seq<char>, c: char, k: int)
    requires
        0 <= k <= s.len(),
        forall|j: int| 0 <= j < k ==> s[j] != c,
        k < s.len() ==> s[k] == c,
    ensures
        first_index(s, c) == k,
{
    lemma_first_index(s, c);
}

/// The position of the first `c` in `text` at or after `from`, or the length.
pub fn find_char(text: &Vec<char>, from: usize, c: char) -> (r: usize)
    requires
        from <= text@.len(),
    ensures
        from <= r <= text@.len(),
        r == from + first_index(text@.skip(from as int), c),
{
    let mut i: usize = from;
    while i < text.len() && text[i] != c
        invariant
            from <= i <= text@.len(),
            forall|j: int| from <= j < i ==> text@[j] != c,
        decreases text@.len() - i,
    {
        i = i + 1;
    }
    proof {
        let rest = text@.skip(from as int);
        assert forall|j: int| 0 <= j < i - from implies rest[j] != c by {
            assert(rest[j] == text@[from + j]);
        }
        if i < text@.len() {
            assert(rest[i - from] == text@[i as int]);
        }
        lemma_first_index_unique(rest, c, i - from);
    }
    i
}

/// The pieces of `s` between the occurrences of `c`.
pub open spec fn split_on(s: Seq<char>, c: char) -> Seq<Seq<char>>
    decreases s.len(),
{
    let k = first_index(s, c);
    if k < 0 || k >= s.len() {
        seq![s]
    } else {
        seq![s.take(k)] + split_on(s.skip(k + 1), c)
    }
}

/// Behind a piece comes the separator or the end.
pub proof fn lemma_split_on_step(s: Seq<char>, c: char)
    ensures
        first_index(s, c) < s.len() ==> split_on(s, c) == seq![s.take(first_index(s, c))]
            + split_on(s.skip(first_index(s, c) + 1), c),
        first_index(s, c) == s.len() ==> split_on(s, c) == seq![s],
{
    lemma_first_index(s, c);
}

/// The Unicode `White_Space` property.
pub open spec fn white_space(c: char) -> bool {
    ||| '\u{9}' <= c <= '\u{d}'
    ||| c == ' '
    ||| c == '\u{85}'
    ||| c == '\u{a0}'
    ||| c == '\u{1680}'
    ||| '\u{2000}' <= c <= '\u{200a}'
    ||| c == '\u{2028}'
    ||| c == '\u{2029}'
    ||| c == '\u{202f}'
    ||| c == '\u{205f}'
    ||| c == '\u{3000}'
}

/// Whether `c` has the Unicode `White_Space` property.
pub fn is_white_space(c: char) -> (r: bool)
    ensures
        r == white_space(c),
{
    ('\u{9}' <= c && c <= '\u{d}') || c == ' ' || c == '\u{85}' || c == '\u{a0}' || c == '\u{1680}'
        || ('\u{2000}' <= c && c <= '\u{200a}') || c == '\u{2028}' || c == '\u{2029}' || c
        == '\u{202f}' || c == '\u{205f}' || c == '\u{3000}'
}

/// `s` without the white space at its front.
pub open spec fn trim_front(s: Seq<char>) -> Seq<char>
    decreases s.len(),
{
    if s.len() > 0 && white_space(s[0]) {
        trim_front(s.drop_first())
    } else {
        s
    }
}

/// `s` without the white space at its back.
pub open spec fn trim_back(s: Seq<char>) -> Seq<char>
    decreases s.len(),
{
    if s.len() > 0 && white_space(s.last()) {
        trim_back(s.drop_last())
    } else {
        s
    }
}

/// `s` without the white space at either end.
pub open spec fn trimmed(s: Seq<char>) -> Seq<char> {
    trim_back(trim_front(s))
}

/// The text of `chars[from..to]` without the white space at either end.
pub fn trim_range(chars: &Vec<char>, from: usize, to: usize) -> (r: String)
    requires
        from <= to <= chars@.len(),
    ensures
        r@ == trimmed(chars@.subrange(from as int, to as int)),
{
    let ghost whole = chars@.subrange(from as int, to as int);
    let mut lo: usize = from;
    while lo < to && is_white_space(chars[lo])
        invariant
            from <= lo <= to <= chars@.len(),
            whole == chars@.subrange(from as int, to as int),
            trim_front(whole) == trim_front(chars@.subrange(lo as int, to as int)),
        decreases to - lo,
    {
        proof {
            let now = chars@.subrange(lo as int, to as int);
            assert(now[0] == chars@[lo as int]);
            assert(now.drop_first() =~= chars@.subrange(lo + 1, to as int));
        }
        lo = lo + 1;
    }
    let ghost front = chars@.subrange(lo as int, to as int);
    proof {
        if lo < to {
            assert(front[0] == chars@[lo as int]);
        }
        assert(trim_front(whole) == front);
    }
    let mut hi: usize = to;
    while lo < hi && is_white_space(chars[hi - 1])
        invariant
            from <= lo <= hi <= to <= chars@.len(),
            front == chars@.subrange(lo as int, to as int),
            trim_back(front) == trim_back(chars@.subrange(lo as int, hi as int)),
        decreases hi - lo,
    {
        proof {
            let now = chars@.subrange(lo as int, hi as int);
            assert(now.last() == chars@[hi - 1]);
            assert(now.drop_last() =~= chars@.subrange(lo as int, hi - 1));
        }
        hi = hi - 1;
    }
    proof {
        let back = chars@.subrange(lo as int, hi as int);
        if lo < hi {
            assert(back.last() == chars@[hi - 1]);
        }
        assert(trim_back(front) == back);
    }
    string_of(chars, lo, hi)
}

/// `text` without the white space at either end.
pub fn trim(text: &str) -> (r: String)
    ensures
        r@ == trimmed(text@),
{
    let chars = chars_of(text);
    assert(chars@.subrange(0, chars@.len() as int) =~= text@);
    trim_range(&chars, 0, chars.len())
}

/// A decimal digit as a character.
pub open spec fn digit_char(d: nat) -> char {
    ((48 + d) as u8) as char
}

/// The decimal notation of `n`, without leading zeros.
pub open spec fn decimal(n: nat) -> Seq<char>
    decreases n,
{
    if n < 10 {
        seq![digit_char(n)]
    } else {
        decimal(n / 10).push(digit_char(n % 10))
    }
}

/// Appends the decimal notation of `n` to `out`.
pub fn push_decimal(out: &mut String, n: u64)
    ensures
        final(out)@ == old(out)@ + decimal(n as nat),
    decreases n,
{
    if n >= 10 {
        push_decimal(out, n / 10);
    }
    out.push((48 + (n % 10) as u8) as char);
    assert(out@ =~= old(out)@ + decimal(n as nat));
}

/// `c` is an ASCII decimal digit.
pub open spec fn is_digit(c: char) -> bool {
    '0' <= c <= '9'
}

/// The value of an ASCII decimal digit.
pub open spec fn digit_value(c: char) -> nat {
    (c as int - 48) as nat
}

/// The number that a sequence of decimal digits denotes.
pub open spec fn digits_value(s: Seq<char>) -> nat
    decreases s.len(),
{
    if s.len() == 0 {
        0
    } else {
        digits_value(s.drop_last()) * 10 + digit_value(s.last())
    }
}

/// Every character of `s` is a decimal digit.
pub open spec fn all_digits(s: Seq<char>) -> bool {
    forall|i: int| 0 <= i < s.len() ==> is_digit(#[trigger] s[i])
}

/// The unsigned integer that `s` spells: an optional `+` and then one decimal
/// digit or more, with a value of at most `max`.
pub open spec fn unsigned_value(s: Seq<char>, max: nat) -> Option<nat> {
    let digits = if s.len() > 0 && s[0] == '+' {
        s.drop_first()
    } else {
        s
    };
    if digits.len() > 0 && all_digits(digits) && digits_value(digits) <= max {
        Some(digits_value(digits))
    } else {
        None
    }
}

pub proof fn lemma_digits_value_grows(s: Seq<char>, k: int)
    requires
        0 <= k <= s.len(),
    ensures
        digits_value(s.take(k)) <= digits_value(s),
    decreases s.len() - k,
{
    if k < s.len() {
        lemma_digits_value_grows(s, k + 1);
        assert(s.take(k + 1).drop_last() =~= s.take(k));
    } else {
        assert(s.take(k) =~= s);
    }
}

/// Reads the unsigned integer that `text` spells, if it is at most `max`.
pub fn parse_unsigned(text: &str, max: u64) -> (r: Option<u64>)
    ensures
        match r {
            Some(n) => unsigned_value(text@, max as nat) == Some(n as nat),
            None => unsigned_value(text@, max as nat) is None,
        },
{
    let chars = chars_of(text);
    let start: usize = if chars.len() > 0 && chars[0] == '+' {
        1
    } else {
        0
    };
    let ghost digits = chars@.skip(start as int);
    assert(start == 1 ==> digits =~= text@.drop_first());
    assert(start == 0 ==> digits =~= text@);
    if start == chars.len() {
        return None;
    }
    let mut value: u64 = 0;
    let mut i: usize = start;
    while i < chars.len()
        invariant
            start <= i <= chars@.len(),
            digits == chars@.skip(start as int),
            start < chars@.len(),
            digits.len() > 0,
            (start == 1 && text@.len() > 0 && text@[0] == '+' && digits == text@.drop_first()) || (
            start == 0 && !(text@.len() > 0 && text@[0] == '+') && digits == text@),
            forall|k: int| 0 <= k < i - start ==> is_digit(#[trigger] digits[k]),
            value == digits_value(digits.take(i - start)),
            value <= max,
        decreases chars@.len() - i,
    {
        let c = chars[i];
        assert(digits[i - start] == c);
        if !('0' <= c && c <= '9') {
            assert(!all_digits(digits));
            return None;
        }
        let d: u64 = c as u64 - 48;
        proof {
            let next = digits.take(i - start + 1);
            assert(next.drop_last() =~= digits.take(i - start));
            assert(next.last() == c);
            lemma_digits_value_grows(digits, i - start + 1);
        }
        if d > max || value > (max - d) / 10 {
            proof {
                assert(value * 10 + d > max);
            }
            return None;
        }
        value = value * 10 + d;
        i = i + 1;
    }
    assert(digits.take(digits.len() as int) =~= digits);
    Some(value)
}

} // verus!
