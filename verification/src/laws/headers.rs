//! HTTP headers and status codes.

use http::HeaderMap;
use vstd::prelude::*;
use vstd::utf8::*;

use crate::headers;
use crate::headers::{
    copied, copy_headers, few_enough, header_text, header_texts, single_header, status_or,
    try_copied, try_copy_headers,
};
use crate::text;

verus! {

/// `low` is `name`, which is made of letters, digits and hyphens, in lower case.
pub open spec fn in_lower_case(name: Seq<char>, low: Seq<char>) -> bool {
    &&& 0 < name.len() <= 65_535
    &&& low.len() == name.len()
    &&& forall|i: int|
        0 <= i < name.len() ==> {
            let (c, l) = (#[trigger] name[i], low[i]);
            ||| 'A' <= c <= 'Z' && l as int == c as int + 32
            ||| ('a' <= c <= 'z' || '0' <= c <= '9' || c == '-') && l == c
        }
}

spec fn in_lower_case_to(name: Seq<char>, low: Seq<char>, n: nat) -> bool
    decreases n,
{
    n == 0 || (({
        let (c, l) = (name[n - 1], low[n - 1]);
        ||| 'A' <= c <= 'Z' && l as int == c as int + 32
        ||| ('a' <= c <= 'z' || '0' <= c <= '9' || c == '-') && l == c
    }) && in_lower_case_to(name, low, (n - 1) as nat))
}

proof fn lemma_in_lower_case_to(name: Seq<char>, low: Seq<char>, n: nat)
    requires
        in_lower_case_to(name, low, n),
    ensures
        forall|i: int|
            0 <= i < n ==> {
                let (c, l) = (#[trigger] name[i], low[i]);
                ||| 'A' <= c <= 'Z' && l as int == c as int + 32
                ||| ('a' <= c <= 'z' || '0' <= c <= '9' || c == '-') && l == c
            },
    decreases n,
{
    if n > 0 {
        lemma_in_lower_case_to(name, low, (n - 1) as nat);
    }
}

pub proof fn lemma_name_of(name: Seq<char>, low: Seq<char>)
    requires
        in_lower_case(name, low),
    ensures
        headers::is_name(name),
        headers::name_of(name) == encode_utf8(low),
{
    assert forall|i: int| 0 <= i < name.len() implies '\0' <= #[trigger] name[i] <= '\u{7f}' by {}
    assert forall|i: int| 0 <= i < low.len() implies '\0' <= #[trigger] low[i] <= '\u{7f}' by {
        assert(name[i] as int >= 0);
    }
    is_ascii_chars_encode_utf8(name);
    is_ascii_chars_encode_utf8(low);
    let bytes = encode_utf8(name);
    assert forall|i: int| 0 <= i < bytes.len() implies headers::name_byte(#[trigger] bytes[i]) by {
        assert(name[i] as u8 == bytes[i]);
    }
    let lowered = bytes.map_values(|b: u8| headers::lower(b));
    assert forall|i: int| 0 <= i < lowered.len() implies lowered[i] == #[trigger] encode_utf8(
        low,
    )[i] by {
        assert(name[i] as u8 == bytes[i]);
        assert(low[i] as u8 == encode_utf8(low)[i]);
    }
    assert(lowered =~= encode_utf8(low));
}

/// The names that the router uses, in lower case.
pub proof fn lemma_known_names()
    ensures
        headers::name_of("Authorization"@) == encode_utf8("authorization"@),
        headers::name_of("Accept"@) == encode_utf8("accept"@),
        headers::name_of("Content-Type"@) == encode_utf8("content-type"@),
        headers::name_of("Docker-Distribution-API-Version"@) == encode_utf8(
            "docker-distribution-api-version"@,
        ),
{
    reveal_with_fuel(in_lower_case_to, 32);
    reveal_strlit("Authorization");
    reveal_strlit("authorization");
    lemma_in_lower_case_to("Authorization"@, "authorization"@, 13);
    lemma_name_of("Authorization"@, "authorization"@);
    reveal_strlit("Accept");
    reveal_strlit("accept");
    lemma_in_lower_case_to("Accept"@, "accept"@, 6);
    lemma_name_of("Accept"@, "accept"@);
    reveal_strlit("Content-Type");
    reveal_strlit("content-type");
    lemma_in_lower_case_to("Content-Type"@, "content-type"@, 12);
    lemma_name_of("Content-Type"@, "content-type"@);
    reveal_strlit("Docker-Distribution-API-Version");
    reveal_strlit("docker-distribution-api-version");
    lemma_in_lower_case_to(
        "Docker-Distribution-API-Version"@,
        "docker-distribution-api-version"@,
        31,
    );
    lemma_name_of("Docker-Distribution-API-Version"@, "docker-distribution-api-version"@);
}

/// All of the value is visible ASCII, blanks and tabs.
pub open spec fn readable(value: Seq<u8>) -> bool {
    forall|i: int| 0 <= i < value.len() ==> 32 <= #[trigger] value[i] <= 126 || value[i] == 9
}

/// `text` has the bytes of the value for characters, and each is a character that can
/// be read.
pub open spec fn reads(value: Seq<u8>, text: Seq<char>) -> bool {
    &&& readable(value)
    &&& text.len() == value.len()
    &&& forall|i: int| 0 <= i < text.len() ==> #[trigger] text[i] as int == value[i]
}

/// `text` is what stands first under the name `key`; nothing where it cannot be read or
/// nothing stands there.
pub open spec fn is_first_at(
    text: Option<String>,
    fields: Map<Seq<u8>, Seq<Seq<u8>>>,
    key: Seq<u8>,
) -> bool {
    match text {
        Some(t) => fields.contains_key(key) && fields[key].len() > 0 && reads(fields[key][0], t@),
        None => fields.contains_key(key) && fields[key].len() > 0 ==> !readable(fields[key][0]),
    }
}

/// `texts` are the values that can be read, in order, and none is missing.
pub open spec fn are_the_readable(texts: Seq<Seq<char>>, values: Seq<Seq<u8>>) -> bool
    decreases values.len(),
{
    if values.len() == 0 {
        texts.len() == 0
    } else if readable(values.last()) {
        texts.len() > 0 && reads(values.last(), texts.last()) && are_the_readable(
            texts.drop_last(),
            values.drop_last(),
        )
    } else {
        are_the_readable(texts, values.drop_last())
    }
}

/// `texts` are what stands under the name `key` and can be read, in order.
pub open spec fn are_all_at(
    texts: Seq<String>,
    fields: Map<Seq<u8>, Seq<Seq<u8>>>,
    key: Seq<u8>,
) -> bool {
    if fields.contains_key(key) {
        are_the_readable(text::views(texts), fields[key])
    } else {
        texts.len() == 0
    }
}

proof fn lemma_visible_text(value: Seq<u8>)
    ensures
        match headers::visible_text(value) {
            Some(t) => reads(value, t),
            None => !readable(value),
        },
{
    if readable(value) {
        assert forall|i: int| 0 <= i < value.len() implies headers::visible(
            #[trigger] value[i],
        ) by {}
        let t = value.map_values(|b: u8| b as char);
        assert forall|i: int| 0 <= i < t.len() implies #[trigger] t[i] as int == value[i] by {}
    } else {
        let i = choose|i: int|
            0 <= i < value.len() && !(32 <= #[trigger] value[i] <= 126 || value[i] == 9);
        assert(!headers::visible(value[i]));
    }
}

proof fn lemma_all_texts(values: Seq<Seq<u8>>)
    ensures
        are_the_readable(headers::all_texts(values), values),
    decreases values.len(),
{
    if values.len() > 0 {
        lemma_all_texts(values.drop_last());
        lemma_visible_text(values.last());
        if let Some(t) = headers::visible_text(values.last()) {
            let all = headers::all_texts(values);
            assert(all.drop_last() =~= headers::all_texts(values.drop_last()));
        }
    }
}

pub proof fn lemma_first_at(text: Option<String>, fields: Map<Seq<u8>, Seq<Seq<u8>>>, key: Seq<u8>)
    requires
        text::opt_view(text) == headers::first_text(headers::values_at(fields, key)),
    ensures
        is_first_at(text, fields, key),
{
    let values = headers::values_at(fields, key);
    if values.len() > 0 {
        lemma_visible_text(values[0]);
    }
}

pub proof fn lemma_all_at(texts: Seq<String>, fields: Map<Seq<u8>, Seq<Seq<u8>>>, key: Seq<u8>)
    requires
        text::views(texts) == headers::all_texts(headers::values_at(fields, key)),
    ensures
        are_all_at(texts, fields, key),
{
    lemma_all_texts(headers::values_at(fields, key));
    assert(text::views(texts).len() == texts.len());
}

/// A header is found by its name in whatever case. Of several values the first one
/// counts, or all of them that can be read, in order; a value that is not visible ASCII
/// counts as none.
pub proof fn law_headers_are_found_by_name(
    map: HeaderMap,
    name: &str,
    low: Seq<char>,
    one: Option<String>,
    all: Vec<String>,
)
    requires
        in_lower_case(name@, low),
        call_ensures(header_text, (&map, name), one),
        call_ensures(header_texts, (&map, name), all),
    ensures
        is_first_at(one, headers::fields_of(map), encode_utf8(low)),
        are_all_at(all@, headers::fields_of(map), encode_utf8(low)),
{
    lemma_name_of(name@, low);
    lemma_first_at(one, headers::fields_of(map), encode_utf8(low));
    lemma_all_at(all@, headers::fields_of(map), encode_utf8(low));
}

/// Headers with one name and one value hold that value under the name in lower case,
/// and nothing else.
pub proof fn law_single_header_stands_alone(
    name: &str,
    low: Seq<char>,
    value: &str,
    map: HeaderMap,
    other: Seq<u8>,
)
    requires
        in_lower_case(name@, low),
        call_ensures(single_header, (name, value), map),
    ensures
        headers::fields_of(map).contains_key(encode_utf8(low)),
        headers::fields_of(map)[encode_utf8(low)] == seq![encode_utf8(value@)],
        headers::fields_of(map).contains_key(other) ==> other == encode_utf8(low),
{
    lemma_name_of(name@, low);
}

/// The bytes form a header name: letters, digits and ``!#$%&'*+-.^_`|~``.
pub open spec fn proper_name(name: Seq<u8>) -> bool {
    &&& 0 < name.len() <= 65_535
    &&& forall|i: int|
        0 <= i < name.len() ==> {
            let b = #[trigger] name[i];
            ||| 'a' as u8 <= b <= 'z' as u8
            ||| 'A' as u8 <= b <= 'Z' as u8
            ||| '0' as u8 <= b <= '9' as u8
            ||| b == '!' as u8 || b == '#' as u8 || b == '$' as u8 || b == '%' as u8
            ||| b == '&' as u8 || b == '\'' as u8 || b == '*' as u8 || b == '+' as u8
            ||| b == '-' as u8 || b == '.' as u8 || b == '^' as u8 || b == '_' as u8
            ||| b == '`' as u8 || b == '|' as u8 || b == '~' as u8
        }
}

/// The bytes may stand as a header value: none is a control byte but the tab.
pub open spec fn proper_value(value: Seq<u8>) -> bool {
    forall|i: int|
        0 <= i < value.len() ==> #[trigger] value[i] == 9 || (32 <= value[i] && value[i] != 127)
}

proof fn lemma_proper(bytes: Seq<u8>)
    ensures
        headers::header_value(bytes) == proper_value(bytes),
        headers::header_name(bytes) is Some <==> proper_name(bytes),
{
    if proper_name(bytes) {
        assert forall|i: int| 0 <= i < bytes.len() implies headers::name_byte(
            #[trigger] bytes[i],
        ) by {}
    }
    if headers::header_name(bytes) is Some {
        assert forall|i: int| 0 <= i < bytes.len() implies ({
            let b = #[trigger] bytes[i];
            ||| 'a' as u8 <= b <= 'z' as u8
            ||| 'A' as u8 <= b <= 'Z' as u8
            ||| '0' as u8 <= b <= '9' as u8
            ||| b == '!' as u8 || b == '#' as u8 || b == '$' as u8 || b == '%' as u8
            ||| b == '&' as u8 || b == '\'' as u8 || b == '*' as u8 || b == '+' as u8
            ||| b == '-' as u8 || b == '.' as u8 || b == '^' as u8 || b == '_' as u8
            ||| b == '`' as u8 || b == '|' as u8 || b == '~' as u8
        }) by {
            assert(headers::name_byte(bytes[i]));
        }
    }
}

proof fn lemma_last_valid(values: Seq<Seq<u8>>) -> (at: int)
    ensures
        match headers::last_valid(values) {
            Some(value) => {
                &&& 0 <= at < values.len()
                &&& values[at] == value
                &&& proper_value(values[at])
                &&& forall|j: int| at < j < values.len() ==> !proper_value(#[trigger] values[j])
            },
            None => forall|j: int| 0 <= j < values.len() ==> !proper_value(#[trigger] values[j]),
        },
    decreases values.len(),
{
    if values.len() == 0 {
        0
    } else {
        lemma_proper(values.last());
        if headers::header_value(values.last()) {
            values.len() - 1
        } else {
            let front = values.drop_last();
            let at = lemma_last_valid(front);
            assert forall|j: int|
                (if headers::last_valid(values) is Some {
                    at
                } else {
                    -1
                }) < j < values.len() implies !proper_value(#[trigger] values[j]) by {
                if j < front.len() {
                    assert(front[j] == values[j]);
                }
            }
            at
        }
    }
}

/// `sent` is what is passed on of the headers that came: under each proper name the
/// last of its values that is proper, and no other name.
pub open spec fn are_passed_on(
    came: Map<Seq<u8>, Seq<Seq<u8>>>,
    sent: Map<Seq<u8>, Seq<Seq<u8>>>,
) -> bool {
    &&& forall|name: Seq<u8>| #[trigger]
        sent.contains_key(name) ==> came.contains_key(name) && proper_name(name)
            && sent[name].len() == 1 && is_last_proper(came[name], sent[name][0])
    &&& forall|name: Seq<u8>| #[trigger]
        came.contains_key(name) && proper_name(name) && !sent.contains_key(name) ==> forall|i: int|
            0 <= i < came[name].len() ==> !proper_value(#[trigger] came[name][i])
}

/// `value` is proper and one of the values, and none behind it is proper.
pub open spec fn is_last_proper(values: Seq<Seq<u8>>, value: Seq<u8>) -> bool {
    exists|at: int|
        {
            &&& 0 <= at < values.len()
            &&& #[trigger] values[at] == value
            &&& proper_value(value)
            &&& forall|j: int| at < j < values.len() ==> !proper_value(#[trigger] values[j])
        }
}

pub proof fn lemma_are_passed_on(came: Map<Seq<u8>, Seq<Seq<u8>>>)
    ensures
        are_passed_on(came, headers::passed_on(came)),
{
    let sent = headers::passed_on(came);
    assert forall|name: Seq<u8>| #[trigger] sent.contains_key(name) implies came.contains_key(name)
        && proper_name(name) && sent[name].len() == 1 && is_last_proper(
        came[name],
        sent[name][0],
    ) by {
        lemma_proper(name);
        let at = lemma_last_valid(came[name]);
        assert(came[name][at] == sent[name][0]);
    }
    assert forall|name: Seq<u8>| #[trigger]
        came.contains_key(name) && proper_name(name) && !sent.contains_key(name) implies forall|
        i: int,
    | 0 <= i < came[name].len() ==> !proper_value(#[trigger] came[name][i]) by {
        lemma_proper(name);
        let at = lemma_last_valid(came[name]);
    }
}

/// Headers are passed on under each proper name with the last of the proper values, and
/// no other name is added. A copy can fail only where there are more than 6553 names.
pub proof fn law_headers_are_passed_on(
    src: HeaderMap,
    copy: HeaderMap,
    tried: Option<HeaderMap>,
    few: bool,
)
    requires
        call_ensures(copied, (&src,), copy),
        call_ensures(try_copied, (&src,), tried),
        call_ensures(few_enough, (&src,), few),
    ensures
        are_passed_on(headers::fields_of(src), headers::fields_of(copy)),
        tried matches Some(t) ==> are_passed_on(headers::fields_of(src), headers::fields_of(t)),
        headers::fields_of(src).dom().len() <= 6_553 ==> few && tried is Some,
        headers::fields_of(src).dom().len() > 6_553 ==> !few,
        few ==> call_requires(copied, (&src,)),
{
    lemma_are_passed_on(headers::fields_of(src));
}

/// Copying headers to others replaces what stands under each proper name that comes
/// with a proper value; what stands under another name stays as it is.
pub proof fn law_other_headers_stay(
    src: HeaderMap,
    before: HeaderMap,
    copied_to: HeaderMap,
    tried: HeaderMap,
    taken: bool,
    name: Seq<u8>,
)
    requires
        exists|d: &mut HeaderMap|
            *d == before && *final(d) == copied_to && #[trigger] call_ensures(
                copy_headers,
                (&src, d),
                (),
            ),
        exists|d: &mut HeaderMap|
            *d == before && *final(d) == tried && #[trigger] call_ensures(
                try_copy_headers,
                (&src, d),
                taken,
            ),
    ensures
        ({
            let came = headers::fields_of(src);
            let (held, holds) = (headers::fields_of(before), headers::fields_of(copied_to));
            if came.contains_key(name) && proper_name(name) && exists|i: int|
                0 <= i < came[name].len() && proper_value(#[trigger] came[name][i]) {
                &&& holds.contains_key(name)
                &&& holds[name].len() == 1
                &&& is_last_proper(came[name], holds[name][0])
            } else {
                &&& holds.contains_key(name) <==> held.contains_key(name)
                &&& held.contains_key(name) ==> holds[name] == held[name]
            }
        }),
        taken ==> headers::fields_of(tried) == headers::fields_of(copied_to),
        !taken ==> headers::fields_of(before).dom().union(headers::fields_of(src).dom()).len()
            > 6_553,
{
    let came = headers::fields_of(src);
    let all = headers::passed_on(came);
    lemma_are_passed_on(came);
    lemma_proper(name);
    let at = lemma_last_valid(came[name]);
    if all.contains_key(name) {
        assert(proper_value(came[name][at]));
    }
}

/// A status from 100 to 999 is passed on, and any other code is replaced.
pub proof fn law_statuses_have_three_digits(code: u16, fallback: u16, r: u16)
    requires
        call_ensures(status_or, (code, fallback), r),
    ensures
        100 <= code <= 999 ==> r == code,
        code < 100 || code > 999 ==> r == fallback,
{
}

} // verus!
