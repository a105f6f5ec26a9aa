//! HTTP header maps, status codes and bodies, as the `http` and `bytes` crates
//! hold them.

use bytes::Bytes;
use http::header::{HeaderName, HeaderValue};
use http::{HeaderMap, StatusCode};
use vstd::prelude::*;
use vstd::string::*;
use vstd::utf8::*;

use crate::text;

verus! {

/// `http::HeaderMap`, opaque to the proofs.
#[verifier::external_type_specification]
#[verifier::external_body]
#[verifier::reject_recursive_types(T)]
pub struct ExHeaderMap<T>(HeaderMap<T>);

/// `http::HeaderValue`, opaque to the proofs.
#[verifier::external_type_specification]
#[verifier::external_body]
pub struct ExHeaderValue(HeaderValue);

/// `bytes::Bytes`, opaque to the proofs.
#[verifier::external_type_specification]
#[verifier::external_body]
pub struct ExBytes(Bytes);

/// The bytes of a body.
pub uninterp spec fn bytes_in(body: Bytes) -> Seq<u8>;

/// `Bytes::clone`: the same bytes.
#[verifier::external_body]
pub(crate) fn share_bytes(body: &Bytes) -> (r: Bytes)
    ensures
        bytes_in(r) == bytes_in(*body),
{
    body.clone()
}

/// What a header map holds: under each name, as bytes, its values in order.
pub uninterp spec fn fields_of(map: HeaderMap) -> Map<Seq<u8>, Seq<Seq<u8>>>;

/// The header map without any name.
pub open spec fn no_fields() -> Map<Seq<u8>, Seq<Seq<u8>>> {
    Map::empty()
}

/// The byte may stand in a header name.
pub open spec fn name_byte(b: u8) -> bool {
    ||| 48 <= b <= 57
    ||| 65 <= b <= 90
    ||| 94 <= b <= 122
    ||| b == 33
    ||| 35 <= b <= 39
    ||| b == 42
    ||| b == 43
    ||| b == 45
    ||| b == 46
    ||| b == 124
    ||| b == 126
}

/// The byte in lower case.
pub open spec fn lower(b: u8) -> u8 {
    if 65 <= b <= 90 {
        (b + 32) as u8
    } else {
        b
    }
}

/// `bytes` holds no upper-case letter.
pub open spec fn is_lower(bytes: Seq<u8>) -> bool {
    forall|i: int| 0 <= i < bytes.len() ==> lower(#[trigger] bytes[i]) == bytes[i]
}

/// The header name that `bytes` spells: 1 to 65535 name bytes, in lower case.
pub open spec fn header_name(bytes: Seq<u8>) -> Option<Seq<u8>> {
    if 0 < bytes.len() <= 65535 && forall|i: int|
        0 <= i < bytes.len() ==> name_byte(#[trigger] bytes[i]) {
        Some(bytes.map_values(|b: u8| lower(b)))
    } else {
        None
    }
}

/// `bytes` may stand as a header value: no control bytes but the tab.
pub open spec fn header_value(bytes: Seq<u8>) -> bool {
    forall|i: int| 0 <= i < bytes.len() ==> (#[trigger] bytes[i] >= 32 && bytes[i] != 127) || bytes[i]
        == 9
}

/// The values in `pairs` under a name, in order.
pub open spec fn values_under(pairs: Seq<(Vec<u8>, Vec<u8>)>, name: Seq<u8>) -> Seq<Seq<u8>>
    decreases pairs.len(),
{
    if pairs.len() == 0 {
        seq![]
    } else {
        let rest = values_under(pairs.drop_last(), name);
        if pairs.last().0@ == name {
            rest.push(pairs.last().1@)
        } else {
            rest
        }
    }
}

/// `pairs` spells out what a header map holds: under each name its values, in
/// order. Names are in lower case, and each has a value.
pub open spec fn spells(
    pairs: Seq<(Vec<u8>, Vec<u8>)>,
    fields: Map<Seq<u8>, Seq<Seq<u8>>>,
) -> bool {
    &&& forall|i: int| 0 <= i < pairs.len() ==> is_lower(#[trigger] pairs[i].0@)
    &&& forall|name: Seq<u8>| #[trigger]
        values_under(pairs, name) == (if fields.contains_key(name) {
            fields[name]
        } else {
            seq![]
        })
    &&& forall|name: Seq<u8>| #[trigger]
        fields.contains_key(name) ==> values_under(pairs, name).len() > 0
}

/// `HeaderName::from_bytes`: the name in lower case, where the bytes form one.
#[verifier::external_body]
fn parse_name(bytes: &[u8]) -> (r: Option<Vec<u8>>)
    ensures
        r is Some <==> header_name(bytes@) is Some,
        r matches Some(name) ==> Some(name@) == header_name(bytes@),
{
    HeaderName::from_bytes(bytes).ok().map(|name| name.as_str().as_bytes().to_vec())
}

/// `HeaderValue::from_bytes`: the bytes themselves, where they form a value.
#[verifier::external_body]
fn parse_value(bytes: &[u8]) -> (r: Option<Vec<u8>>)
    ensures
        r is Some <==> header_value(bytes@),
        r matches Some(value) ==> value@ == bytes@,
{
    HeaderValue::from_bytes(bytes).ok().map(|value| value.as_bytes().to_vec())
}

/// A header map that holds no more names takes another one for certain. Beyond it
/// `HeaderMap::try_insert` can refuse: with many colliding names the map doubles its
/// table as soon as a fifth of it is used, up to 32768 slots.
pub const MAX_NAMES: usize = 6_553;

/// `HeaderMap::new`: no headers.
#[verifier::external_body]
fn empty_headers() -> (created: HeaderMap)
    ensures
        fields_of(created) == no_fields(),
{
    HeaderMap::new()
}

/// `HeaderMap::iter`: each name comes once for each of its values, and the values
/// of a name come in order. In which order the names come is not said. A header
/// name is always in lower case.
#[verifier::external_body]
fn header_pairs(map: &HeaderMap) -> (pairs: Vec<(Vec<u8>, Vec<u8>)>)
    ensures
        spells(pairs@, fields_of(*map)),
{
    map.iter().map(|(name, value)| (name.as_str().into(), value.as_bytes().into())).collect()
}

/// `HeaderMap::try_insert`: the value replaces all values of the name. A map that is
/// too large for it refuses, and stays as it is; one with at most `MAX_NAMES` names
/// does not. Whether a larger one refuses rests on how its names collide, so that is
/// left unsaid.
#[verifier::external_body]
fn insert_field(map: &mut HeaderMap, name: &[u8], value: &[u8]) -> (taken: bool)
    requires
        header_name(name@) is Some,
        header_value(value@),
    ensures
        taken ==> fields_of(*final(map)) == fields_of(*old(map)).insert(
            header_name(name@)->0,
            seq![value@],
        ),
        !taken ==> fields_of(*final(map)) == fields_of(*old(map)),
        fields_of(*old(map)).dom().len() <= MAX_NAMES ==> taken,
{
    let parsed = HeaderValue::from_bytes(value).unwrap();
    map.try_insert(HeaderName::from_bytes(name).unwrap(), parsed).is_ok()
}

/// `code` is an HTTP status.
pub open spec fn is_status(code: u16) -> bool {
    100 <= code <= 999
}

/// A status as text: the code and its reason, as `StatusCode` displays itself.
pub uninterp spec fn status_line(code: u16) -> Seq<char>;

/// `StatusCode` as it displays itself.
#[verifier::external_body]
pub(crate) fn status_text(code: u16) -> (r: String)
    requires
        is_status(code),
    ensures
        r@ == status_line(code),
{
    StatusCode::from_u16(code).unwrap().to_string()
}

/// `StatusCode::from_u16`: the codes from 100 to 999 are taken.
#[verifier::external_body]
fn parse_status(code: u16) -> (r: Option<u16>)
    ensures
        r == (if is_status(code) {
            Some(code)
        } else {
            None
        }),
{
    StatusCode::from_u16(code).ok().map(|status| status.as_u16())
}

/// The status `code`, or `fallback` where `code` is no HTTP status.
pub fn status_or(code: u16, fallback: u16) -> (r: u16)
    ensures
        r == (if is_status(code) {
            code
        } else {
            fallback
        }),
{
    match parse_status(code) {
        Some(status) => status,
        None => fallback,
    }
}

/// The last of the values that may stand as a header value.
pub open spec fn last_valid(values: Seq<Seq<u8>>) -> Option<Seq<u8>>
    decreases values.len(),
{
    if values.len() == 0 {
        None
    } else if header_value(values.last()) {
        Some(values.last())
    } else {
        last_valid(values.drop_last())
    }
}

/// What is passed on of a header map: under each proper name the last of its
/// proper values.
pub open spec fn passed_on(fields: Map<Seq<u8>, Seq<Seq<u8>>>) -> Map<Seq<u8>, Seq<Seq<u8>>> {
    Map::new(
        |name: Seq<u8>|
            fields.contains_key(name) && header_name(name) is Some && last_valid(fields[name]) is Some,
        |name: Seq<u8>| seq![last_valid(fields[name])->0],
    )
}

/// What stands in a header map after `pairs` were inserted one after the other.
spec fn after_pairs(
    start: Map<Seq<u8>, Seq<Seq<u8>>>,
    pairs: Seq<(Vec<u8>, Vec<u8>)>,
) -> Map<Seq<u8>, Seq<Seq<u8>>>
    decreases pairs.len(),
{
    if pairs.len() == 0 {
        start
    } else {
        let rest = after_pairs(start, pairs.drop_last());
        let (name, value) = (pairs.last().0@, pairs.last().1@);
        if header_name(name) is Some && header_value(value) {
            rest.insert(header_name(name)->0, seq![value])
        } else {
            rest
        }
    }
}

proof fn lemma_lower_name(name: Seq<u8>)
    requires
        is_lower(name),
    ensures
        header_name(name) matches Some(n) ==> n == name,
{
    if header_name(name) is Some {
        assert(header_name(name)->0 =~= name);
    }
}

proof fn lemma_after_pairs(
    start: Map<Seq<u8>, Seq<Seq<u8>>>,
    pairs: Seq<(Vec<u8>, Vec<u8>)>,
    name: Seq<u8>,
)
    requires
        forall|i: int| 0 <= i < pairs.len() ==> is_lower(#[trigger] pairs[i].0@),
    ensures
        ({
            let valid = last_valid(values_under(pairs, name));
            let result = after_pairs(start, pairs);
            if header_name(name) is Some && valid is Some && is_lower(name) {
                result.contains_key(name) && result[name] == seq![valid->0]
            } else {
                result.contains_key(name) == start.contains_key(name) && (start.contains_key(name)
                    ==> result[name] == start[name])
            }
        }),
    decreases pairs.len(),
{
    if pairs.len() > 0 {
        let front = pairs.drop_last();
        assert forall|i: int| 0 <= i < front.len() implies is_lower(#[trigger] front[i].0@) by {
            assert(front[i] == pairs[i]);
        }
        lemma_after_pairs(start, front, name);
        let last = pairs.last().0@;
        assert(pairs[pairs.len() - 1] == pairs.last());
        lemma_lower_name(last);
        let values = values_under(pairs, name);
        if last == name {
            assert(values.drop_last() =~= values_under(front, name));
            assert(values.last() == pairs.last().1@);
        }
    }
}

proof fn lemma_values_have_lower_name(pairs: Seq<(Vec<u8>, Vec<u8>)>, name: Seq<u8>)
    requires
        forall|i: int| 0 <= i < pairs.len() ==> is_lower(#[trigger] pairs[i].0@),
        values_under(pairs, name).len() > 0,
    ensures
        is_lower(name),
    decreases pairs.len(),
{
    assert(pairs[pairs.len() - 1] == pairs.last());
    if pairs.last().0@ != name {
        let front = pairs.drop_last();
        assert forall|i: int| 0 <= i < front.len() implies is_lower(#[trigger] front[i].0@) by {
            assert(front[i] == pairs[i]);
        }
        lemma_values_have_lower_name(front, name);
    }
}

proof fn lemma_named_in_pairs(pairs: Seq<(Vec<u8>, Vec<u8>)>, name: Seq<u8>)
    requires
        values_under(pairs, name).len() > 0,
    ensures
        pairs.map_values(|p: (Vec<u8>, Vec<u8>)| p.0@).contains(name),
    decreases pairs.len(),
{
    let names = pairs.map_values(|p: (Vec<u8>, Vec<u8>)| p.0@);
    if pairs.last().0@ == name {
        assert(names[pairs.len() - 1] == name);
    } else {
        let front = pairs.drop_last();
        lemma_named_in_pairs(front, name);
        let some = front.map_values(|p: (Vec<u8>, Vec<u8>)| p.0@);
        let k = choose|k: int| 0 <= k < some.len() && some[k] == name;
        assert(names[k] == name);
    }
}

/// A header map holds finitely many names.
proof fn lemma_names_are_finite(
    pairs: Seq<(Vec<u8>, Vec<u8>)>,
    fields: Map<Seq<u8>, Seq<Seq<u8>>>,
)
    requires
        spells(pairs, fields),
    ensures
        fields.dom().finite(),
{
    let names = pairs.map_values(|p: (Vec<u8>, Vec<u8>)| p.0@);
    vstd::seq_lib::seq_to_set_is_finite(names);
    assert forall|name: Seq<u8>| fields.dom().contains(name) implies names.to_set().contains(
        name,
    ) by {
        assert(fields.contains_key(name));
        lemma_named_in_pairs(pairs, name);
    }
    vstd::set_lib::lemma_len_subset(fields.dom(), names.to_set());
}

proof fn lemma_values_of_named(pairs: Seq<(Vec<u8>, Vec<u8>)>, i: int)
    requires
        0 <= i < pairs.len(),
    ensures
        values_under(pairs, pairs[i].0@).len() > 0,
    decreases pairs.len(),
{
    if i < pairs.len() - 1 {
        let front = pairs.drop_last();
        assert(front[i] == pairs[i]);
        lemma_values_of_named(front, i);
    }
}

/// Inserting what a header map holds adds no other names.
proof fn lemma_names_after_pairs(
    start: Map<Seq<u8>, Seq<Seq<u8>>>,
    pairs: Seq<(Vec<u8>, Vec<u8>)>,
    fields: Map<Seq<u8>, Seq<Seq<u8>>>,
    n: int,
)
    requires
        spells(pairs, fields),
        0 <= n <= pairs.len(),
    ensures
        after_pairs(start, pairs.take(n)).dom().subset_of(start.dom().union(fields.dom())),
        forall|name: Seq<u8>|
            !passed_on(fields).contains_key(name) ==> (#[trigger] after_pairs(
                start,
                pairs.take(n),
            ).contains_key(name) == start.contains_key(name) && (start.contains_key(name)
                ==> after_pairs(start, pairs.take(n))[name] == start[name])),
    decreases n,
{
    if n > 0 {
        let some = pairs.take(n);
        assert(some.drop_last() =~= pairs.take(n - 1));
        assert(some.last() == pairs[n - 1]);
        lemma_names_after_pairs(start, pairs, fields, n - 1);
        let (name, value) = (pairs[n - 1].0@, pairs[n - 1].1@);
        lemma_lower_name(name);
        lemma_values_of_named(pairs, n - 1);
        assert(values_under(pairs, name).len() > 0);
        assert(fields.contains_key(name));
        if header_value(value) {
            lemma_valid_in_values(pairs, n - 1);
        }
    }
}

proof fn lemma_valid_in_values(pairs: Seq<(Vec<u8>, Vec<u8>)>, i: int)
    requires
        0 <= i < pairs.len(),
        header_value(pairs[i].1@),
    ensures
        last_valid(values_under(pairs, pairs[i].0@)) is Some,
    decreases pairs.len(),
{
    let name = pairs[i].0@;
    let values = values_under(pairs, name);
    if i < pairs.len() - 1 {
        let front = pairs.drop_last();
        assert(front[i] == pairs[i]);
        lemma_valid_in_values(front, i);
        if pairs.last().0@ == name {
            assert(values.drop_last() =~= values_under(front, name));
        }
    } else {
        assert(values.last() == pairs.last().1@);
    }
}

/// All names of two header maps.
pub open spec fn names_of_both(a: HeaderMap, b: HeaderMap) -> Set<Seq<u8>> {
    fields_of(a).dom().union(fields_of(b).dom())
}

/// Copies headers that came from upstream: each proper name gets the last of its
/// proper values, and what `dst` held under other names stays. Where `dst` is too
/// small for all of them, it says so, and what `dst` held under other names stays all
/// the same.
pub fn try_copy_headers(src: &HeaderMap, dst: &mut HeaderMap) -> (taken: bool)
    ensures
        taken ==> fields_of(*final(dst)) == fields_of(*old(dst)).union_prefer_right(
            passed_on(fields_of(*src)),
        ),
        !taken ==> names_of_both(*old(dst), *src).len() > MAX_NAMES,
        forall|name: Seq<u8>|
            !passed_on(fields_of(*src)).contains_key(name) ==> (#[trigger] fields_of(
                *final(dst),
            ).contains_key(name) == fields_of(*old(dst)).contains_key(name) && (fields_of(
                *old(dst),
            ).contains_key(name) ==> fields_of(*final(dst))[name] == fields_of(*old(dst))[name])),
{
    let pairs = header_pairs(src);
    let present = header_pairs(dst);
    let ghost start = fields_of(*dst);
    let ghost fields = fields_of(*src);
    proof {
        lemma_names_are_finite(present@, start);
        lemma_names_are_finite(pairs@, fields);
    }
    let mut i: usize = 0;
    let mut taken = true;
    assert(pairs@.take(0) =~= Seq::empty());
    while taken && i < pairs.len()
        invariant
            i <= pairs@.len(),
            start.dom().finite(),
            fields.dom().finite(),
            spells(pairs@, fields),
            fields_of(*dst) == after_pairs(start, pairs@.take(i as int)),
            !taken ==> fields_of(*dst).dom().len() > MAX_NAMES,
        decreases
            pairs@.len() - i,
            if taken {
                1int
            } else {
                0int
            },
    {
        let ghost next = pairs@.take(i + 1);
        assert(next.drop_last() =~= pairs@.take(i as int));
        assert(next.last() == pairs@[i as int]);
        let name = parse_name(pairs[i].0.as_slice());
        let value = parse_value(pairs[i].1.as_slice());
        match (name, value) {
            (Some(_), Some(v)) => {
                taken = insert_field(dst, pairs[i].0.as_slice(), v.as_slice());
            },
            _ => {},
        }
        if taken {
            i = i + 1;
        }
    }
    proof {
        lemma_names_after_pairs(start, pairs@, fields, i as int);
        let result = fields_of(*dst);
        vstd::set_lib::lemma_len_subset(result.dom(), start.dom().union(fields.dom()));
        if taken {
            assert(pairs@.take(pairs@.len() as int) =~= pairs@);
            let expected = start.union_prefer_right(passed_on(fields));
            assert forall|name: Seq<u8>|
                result.contains_key(name) == #[trigger] expected.contains_key(name) && (
                expected.contains_key(name) ==> result[name] == expected[name]) by {
                lemma_after_pairs(start, pairs@, name);
                let values = values_under(pairs@, name);
                if values.len() > 0 {
                    lemma_values_have_lower_name(pairs@, name);
                }
            }
            assert(result =~= expected);
        }
    }
    taken
}

/// Copies headers that came from upstream: each proper name gets the last of its
/// proper values, and what `dst` held under other names stays.
pub fn copy_headers(src: &HeaderMap, dst: &mut HeaderMap)
    requires
        names_of_both(*old(dst), *src).len() <= MAX_NAMES,
    ensures
        fields_of(*final(dst)) == fields_of(*old(dst)).union_prefer_right(
            passed_on(fields_of(*src)),
        ),
{
    let _ = try_copy_headers(src, dst);
}

/// `HeaderMap::keys_len`: the number of names.
#[verifier::external_body]
fn name_count(map: &HeaderMap) -> (n: usize)
    ensures
        n == fields_of(*map).dom().len(),
{
    map.keys_len()
}

/// Whether the names are so few that an empty header map takes them all for certain.
pub fn few_enough(map: &HeaderMap) -> (r: bool)
    ensures
        r == (fields_of(*map).dom().len() <= MAX_NAMES),
{
    name_count(map) <= MAX_NAMES
}

/// The headers that are passed on of `src`, unless a header map is too small for
/// them.
pub fn try_copied(src: &HeaderMap) -> (r: Option<HeaderMap>)
    ensures
        r matches Some(copy) ==> fields_of(copy) == passed_on(fields_of(*src)),
        r is None ==> fields_of(*src).dom().len() > MAX_NAMES,
{
    let mut copy = empty_headers();
    assert(names_of_both(copy, *src) =~= fields_of(*src).dom());
    assert(no_fields().union_prefer_right(passed_on(fields_of(*src))) =~= passed_on(
        fields_of(*src),
    ));
    if try_copy_headers(src, &mut copy) {
        Some(copy)
    } else {
        None
    }
}

/// The headers that are passed on of `src`.
pub fn copied(src: &HeaderMap) -> (r: HeaderMap)
    requires
        fields_of(*src).dom().len() <= MAX_NAMES,
    ensures
        fields_of(r) == passed_on(fields_of(*src)),
{
    let mut r = empty_headers();
    assert(names_of_both(r, *src) =~= fields_of(*src).dom());
    copy_headers(src, &mut r);
    assert(no_fields().union_prefer_right(passed_on(fields_of(*src))) =~= passed_on(
        fields_of(*src),
    ));
    r
}

/// `text` spells a header name.
pub open spec fn is_name(text: Seq<char>) -> bool {
    header_name(encode_utf8(text)) is Some
}

/// The header name that `text` spells.
pub open spec fn name_of(text: Seq<char>) -> Seq<u8> {
    header_name(encode_utf8(text))->0
}

/// Headers with one name and one value.
pub fn single_header(name: &str, value: &str) -> (r: HeaderMap)
    requires
        is_name(name@),
        header_value(encode_utf8(value@)),
    ensures
        fields_of(r) == no_fields().insert(name_of(name@), seq![encode_utf8(value@)]),
{
    let mut r = empty_headers();
    let _ = insert_field(&mut r, name.as_bytes(), value.as_bytes());
    r
}

/// The values that stand under a name, in order.
pub open spec fn values_at(fields: Map<Seq<u8>, Seq<Seq<u8>>>, name: Seq<u8>) -> Seq<Seq<u8>> {
    if fields.contains_key(name) {
        fields[name]
    } else {
        seq![]
    }
}

/// The contents of a sequence of byte vectors.
pub open spec fn byte_views(values: Seq<Vec<u8>>) -> Seq<Seq<u8>> {
    values.map_values(|v: Vec<u8>| v@)
}

/// `HeaderMap::get_all`: the values under the name, in order.
#[verifier::external_body]
fn values_of(map: &HeaderMap, name: &str) -> (values: Vec<Vec<u8>>)
    requires
        is_name(name@),
    ensures
        byte_views(values@) == values_at(fields_of(*map), name_of(name@)),
{
    map.get_all(name).iter().map(|value| value.as_bytes().to_vec()).collect()
}

/// The byte is a visible ASCII character, a blank or a tab.
pub open spec fn visible(b: u8) -> bool {
    32 <= b < 127 || b == 9
}

/// The text that a header value holds, where all of it is visible ASCII.
pub open spec fn visible_text(value: Seq<u8>) -> Option<Seq<char>> {
    if forall|i: int| 0 <= i < value.len() ==> visible(#[trigger] value[i]) {
        Some(value.map_values(|b: u8| b as char))
    } else {
        None
    }
}

/// `HeaderValue::to_str`: the text of the value, where it is visible ASCII.
#[verifier::external_body]
fn value_text(value: &[u8]) -> (r: Option<String>)
    ensures
        text::opt_view(r) == visible_text(value@),
{
    HeaderValue::from_bytes(value).ok().and_then(|v| v.to_str().ok().map(String::from))
}

/// The text of the first of the values, where it is visible ASCII.
pub open spec fn first_text(values: Seq<Seq<u8>>) -> Option<Seq<char>> {
    if values.len() == 0 {
        None
    } else {
        visible_text(values[0])
    }
}

/// The texts of the values that are visible ASCII, in order.
pub open spec fn all_texts(values: Seq<Seq<u8>>) -> Seq<Seq<char>>
    decreases values.len(),
{
    if values.len() == 0 {
        seq![]
    } else {
        let rest = all_texts(values.drop_last());
        match visible_text(values.last()) {
            Some(t) => rest.push(t),
            None => rest,
        }
    }
}

/// The text of the first value under the name.
pub fn header_text(map: &HeaderMap, name: &str) -> (r: Option<String>)
    requires
        is_name(name@),
    ensures
        text::opt_view(r) == first_text(values_at(fields_of(*map), name_of(name@))),
{
    let values = values_of(map, name);
    let ghost all = byte_views(values@);
    assert(all.len() == values@.len());
    if values.len() == 0 {
        None
    } else {
        assert(all[0] == values@[0]@);
        value_text(values[0].as_slice())
    }
}

/// The texts of the values under the name.
pub fn header_texts(map: &HeaderMap, name: &str) -> (r: Vec<String>)
    requires
        is_name(name@),
    ensures
        text::views(r@) == all_texts(values_at(fields_of(*map), name_of(name@))),
{
    let values = values_of(map, name);
    let ghost all = byte_views(values@);
    let mut r: Vec<String> = Vec::new();
    let mut i: usize = 0;
    assert(text::views(r@) =~= all_texts(all.take(0)));
    while i < values.len()
        invariant
            i <= values@.len(),
            all == byte_views(values@),
            text::views(r@) == all_texts(all.take(i as int)),
        decreases values@.len() - i,
    {
        let ghost next = all.take(i + 1);
        assert(next.drop_last() =~= all.take(i as int));
        assert(next.last() == values@[i as int]@);
        let ghost before = r@;
        if let Some(t) = value_text(values[i].as_slice()) {
            r.push(t);
            assert(text::views(r@) =~= text::views(before).push(t@));
        }
        i = i + 1;
    }
    assert(all.take(all.len() as int) =~= all);
    r
}

/// The first `n` characters of `text` are ASCII and may stand in a header name.
spec fn name_chars(text: Seq<char>, n: nat) -> bool
    decreases n,
{
    n == 0 || ('\0' <= text[n - 1] <= '\u{7f}' && name_byte(text[n - 1] as u8) && name_chars(
        text,
        (n - 1) as nat,
    ))
}

/// The first `n` characters of `text` are visible ASCII.
spec fn visible_chars(text: Seq<char>, n: nat) -> bool
    decreases n,
{
    n == 0 || ('\0' <= text[n - 1] <= '\u{7f}' && visible(text[n - 1] as u8) && visible_chars(
        text,
        (n - 1) as nat,
    ))
}

proof fn lemma_name_chars(text: Seq<char>, n: nat)
    requires
        name_chars(text, n),
    ensures
        forall|i: int| 0 <= i < n ==> '\0' <= #[trigger] text[i] <= '\u{7f}' && name_byte(text[i] as u8),
    decreases n,
{
    if n > 0 {
        lemma_name_chars(text, (n - 1) as nat);
    }
}

proof fn lemma_visible_chars(text: Seq<char>, n: nat)
    requires
        visible_chars(text, n),
    ensures
        forall|i: int| 0 <= i < n ==> '\0' <= #[trigger] text[i] <= '\u{7f}' && visible(text[i] as u8),
    decreases n,
{
    if n > 0 {
        lemma_visible_chars(text, (n - 1) as nat);
    }
}

proof fn lemma_is_name(text: Seq<char>)
    requires
        0 < text.len() <= 65535,
        name_chars(text, text.len()),
    ensures
        is_name(text),
{
    lemma_name_chars(text, text.len());
    is_ascii_chars_encode_utf8(text);
}

proof fn lemma_is_value(text: Seq<char>)
    requires
        visible_chars(text, text.len()),
    ensures
        header_value(encode_utf8(text)),
{
    lemma_visible_chars(text, text.len());
    is_ascii_chars_encode_utf8(text);
}

/// The names and values that the router uses are proper.
pub proof fn lemma_known_headers()
    ensures
        is_name("Authorization"@),
        is_name("Accept"@),
        is_name("Content-Type"@),
        is_name("Docker-Distribution-API-Version"@),
        header_value(encode_utf8("application/json"@)),
        header_value(encode_utf8("registry/2.0"@)),
{
    reveal_with_fuel(name_chars, 32);
    reveal_with_fuel(visible_chars, 17);
    reveal_strlit("Authorization");
    lemma_is_name("Authorization"@);
    reveal_strlit("Accept");
    lemma_is_name("Accept"@);
    reveal_strlit("Content-Type");
    lemma_is_name("Content-Type"@);
    reveal_strlit("Docker-Distribution-API-Version");
    lemma_is_name("Docker-Distribution-API-Version"@);
    reveal_strlit("application/json");
    lemma_is_value("application/json"@);
    reveal_strlit("registry/2.0");
    lemma_is_value("registry/2.0"@);
}

} // verus!
