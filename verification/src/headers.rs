//! HTTP request headers (the `http` crate's `HeaderMap`, read with `kutil`).
use vstd::prelude::*;

use crate::status::INTERNAL_SERVER_ERROR;
use crate::text::{lower, str_eq, to_lowercase};

verus! {

/// An HTTP header value (what `HeaderMap` holds).
#[verifier::external_type_specification]
#[verifier::external_body]
pub struct ExHeaderValue(::axum::http::HeaderValue);

/// HTTP headers.
#[verifier::external_type_specification]
#[verifier::external_body]
#[verifier::reject_recursive_types(T)]
pub struct ExHeaderMap<T>(::axum::http::HeaderMap<T>);

/// What a `HeaderMap` holds: for each (lowercase) header name, the bytes of its values in the
/// order they were inserted.
pub uninterp spec fn header_values(headers: ::axum::http::HeaderMap) -> Map<Seq<char>, Seq<Seq<u8>>>;

/// The username and password that `kutil::http::HeaderValues::authorization_basic` reads from
/// the bytes of an `Authorization` header value (`Basic `, then base64 of `username:password`);
/// `None` when the value is not of that form.
pub uninterp spec fn basic_credentials_of(authorization: Seq<u8>) -> Option<(Seq<char>, Seq<char>)>;

/// Basic credentials as plain values.
pub open spec fn credentials_view(credentials: Option<(String, String)>) -> Option<(Seq<char>, Seq<char>)> {
    match credentials {
        Some((username, password)) => Some((username@, password@)),
        None => None,
    }
}

/// The basic credentials of a request: those of its first `Authorization` header value, if
/// it has one.
pub open spec fn request_basic_credentials(headers: ::axum::http::HeaderMap) -> Option<(Seq<char>, Seq<char>)> {
    if header_values(headers).contains_key("authorization"@) && header_values(headers)["authorization"@].len() > 0 {
        basic_credentials_of(header_values(headers)["authorization"@][0])
    } else {
        None
    }
}

/// `kutil::http::HeaderValues::authorization_basic`: the username and password of a `Basic`
/// `Authorization` header.
///
/// It reads the first value of the `Authorization` header (`HeaderMap::get`) and nothing else
/// of the headers; what it reads from that value is named by `basic_credentials_of`.
#[verifier::external_body]
pub(crate) fn authorization_basic(headers: &::axum::http::HeaderMap) -> (credentials: Option<(String, String)>)
    ensures
        credentials_view(credentials) == (if header_values(*headers).contains_key("authorization"@)
            && header_values(*headers)["authorization"@].len() > 0 {
            basic_credentials_of(header_values(*headers)["authorization"@][0])
        } else {
            None
        }),
{
    ::kutil::http::HeaderValues::authorization_basic(headers)
}

/// A character that a lowercase header name may hold: a lowercase letter, a digit, or one of
/// ``!"#$%&'*+-.^_`|~``.
pub open spec fn header_name_char(c: char) -> bool {
    ||| 'a' <= c <= 'z'
    ||| '0' <= c <= '9'
    ||| c == '!' || c == '"' || c == '#' || c == '$' || c == '%' || c == '&' || c == '\''
    ||| c == '*' || c == '+' || c == '-' || c == '.' || c == '^' || c == '_' || c == '`'
    ||| c == '|' || c == '~'
}

/// Whether the `http` crate accepts a lowercase header name: it is not empty, not longer than
/// 65535 bytes, and each of its characters is one it allows.
pub open spec fn header_name_accepts(lowercase: Seq<char>) -> bool {
    &&& 0 < lowercase.len() <= 65535
    &&& forall|i: int| 0 <= i < lowercase.len() ==> header_name_char(#[trigger] lowercase[i])
}

/// `HeaderName::from_lowercase`: whether a lowercase name is a valid header name (its table
/// maps every byte it does not allow, uppercase letters and non-ASCII bytes among them, to 0).
#[verifier::external_body]
fn is_header_name(lowercase: &str) -> (accepted: bool)
    ensures
        accepted == header_name_accepts(lowercase@),
{
    ::axum::http::HeaderName::from_lowercase(lowercase.as_bytes()).is_ok()
}

/// Whether a header value is valid: every character is a tab, or at least a space and not
/// DEL (the bytes of non-ASCII characters all qualify).
pub open spec fn valid_header_value(value: Seq<char>) -> bool {
    forall|i: int| 0 <= i < value.len() ==> ((#[trigger] value[i]) == '\t' || (32 <= value[i] as u32 && value[i] as u32 != 127))
}

/// `HeaderValue::from_str`: accepts a value exactly when each of its bytes is a tab, or at
/// least 32 and not 127.
#[verifier::external_body]
fn is_header_value(value: &str) -> (accepted: bool)
    ensures
        accepted == valid_header_value(value@),
{
    ::axum::http::HeaderValue::from_str(value).is_ok()
}

/// Headers as plain values.
pub open spec fn headers_view(headers: Seq<(String, String)>) -> Seq<(Seq<char>, Seq<char>)> {
    headers.map_values(|header: (String, String)| (header.0@, header.1@))
}

/// The headers without those of a name, in order.
pub open spec fn without_header(headers: Seq<(Seq<char>, Seq<char>)>, name: Seq<char>) -> Seq<(Seq<char>, Seq<char>)>
    decreases headers.len(),
{
    if headers.len() == 0 {
        headers
    } else {
        let rest = without_header(headers.drop_last(), name);
        if headers.last().0 == name {
            rest
        } else {
            rest.push(headers.last())
        }
    }
}

/// The headers without those of a name hold no header of that name, and only headers they had.
pub proof fn lemma_without_header(headers: Seq<(Seq<char>, Seq<char>)>, name: Seq<char>)
    ensures
        forall|k: int| 0 <= k < without_header(headers, name).len() ==> (#[trigger] without_header(headers, name)[k]).0 != name,
        forall|k: int| 0 <= k < without_header(headers, name).len() ==> headers.contains(#[trigger] without_header(headers, name)[k]),
    decreases headers.len(),
{
    if headers.len() > 0 {
        lemma_without_header(headers.drop_last(), name);
        let rest = without_header(headers.drop_last(), name);
        let result = without_header(headers, name);
        assert forall|k: int| 0 <= k < result.len() implies headers.contains(#[trigger] result[k]) by {
            if k < rest.len() {
                assert(result[k] == rest[k]);
                let j = choose|j: int| 0 <= j < headers.drop_last().len() && headers.drop_last()[j] == rest[k];
                assert(headers[j] == headers.drop_last()[j]);
            } else {
                assert(headers[headers.len() - 1] == headers.last());
            }
        }
    }
}

/// Setting a header replaces all its values: afterwards the header, under its lowercase name,
/// has exactly the value set, after the other headers.
pub proof fn law_set_header_replaces(headers: Seq<(Seq<char>, Seq<char>)>, name: Seq<char>, value: Seq<char>)
    requires
        header_name_accepts(lower(name)),
        valid_header_value(value),
    ensures
        spec_set_string_values(headers, seq![(name, value)]) matches Some(result) && result.last() == (lower(name), value)
            && forall|k: int| 0 <= k < result.len() - 1 ==> (#[trigger] result[k]).0 != lower(name),
{
    let values = seq![(name, value)];
    assert(values.drop_first() =~= Seq::<(Seq<char>, Seq<char>)>::empty());
    lemma_without_header(headers, lower(name));
    let result = without_header(headers, lower(name)).push((lower(name), value));
    assert(values[0] == (name, value));
    assert(spec_set_string_values(result, values.drop_first()) == Some(result));
    assert(spec_set_string_values(headers, values) == Some(result));
    assert forall|k: int| 0 <= k < result.len() - 1 implies (#[trigger] result[k]).0 != lower(name) by {
        assert(result[k] == without_header(headers, lower(name))[k]);
    }
}

/// Headers with string values set, in order: each name is lowercased, and skipped unless it is
/// a valid header name; otherwise its existing values are replaced by the value, which must be
/// valid (`None` when one is not).
pub open spec fn spec_set_string_values(headers: Seq<(Seq<char>, Seq<char>)>, values: Seq<(Seq<char>, Seq<char>)>) -> Option<Seq<(Seq<char>, Seq<char>)>>
    decreases values.len(),
{
    if values.len() == 0 {
        Some(headers)
    } else {
        let (name, value) = values[0];
        let name = lower(name);
        if !header_name_accepts(name) {
            spec_set_string_values(headers, values.drop_first())
        } else if !valid_header_value(value) {
            None
        } else {
            spec_set_string_values(without_header(headers, name).push((name, value)), values.drop_first())
        }
    }
}

/// The headers without those of a name.
fn remove_header(headers: &Vec<(String, String)>, name: &str) -> (kept: Vec<(String, String)>)
    ensures
        headers_view(kept@) == without_header(headers_view(headers@), name@),
{
    let mut kept: Vec<(String, String)> = Vec::new();
    let mut i: usize = 0;
    while i < headers.len()
        invariant
            i <= headers@.len(),
            headers_view(kept@) == without_header(headers_view(headers@.take(i as int)), name@),
        decreases headers@.len() - i,
    {
        proof {
            assert(headers_view(headers@.take(i + 1)).drop_last() =~= headers_view(headers@.take(i as int)));
            assert(headers_view(headers@.take(i + 1)).last() == (headers@[i as int].0@, headers@[i as int].1@));
        }
        if !str_eq(headers[i].0.as_str(), name) {
            let ghost before = kept@;
            kept.push((String::from_str(headers[i].0.as_str()), String::from_str(headers[i].1.as_str())));
            assert(headers_view(kept@) =~= headers_view(before).push((headers@[i as int].0@, headers@[i as int].1@)));
        }
        i = i + 1;
    }
    assert(headers@.take(headers@.len() as int) =~= headers@);
    kept
}

/// `HeaderValues::set_string_values` (kutil) on headers held as name-value pairs: the
/// headers with the values set, or 500 when a value is invalid.
pub fn set_string_values(headers: &Vec<(String, String)>, values: &Vec<(String, String)>) -> (merged: Result<Vec<(String, String)>, u16>)
    ensures
        merged is Ok <==> spec_set_string_values(headers_view(headers@), headers_view(values@)) is Some,
        merged matches Ok(m) ==> spec_set_string_values(headers_view(headers@), headers_view(values@)) == Some(headers_view(m@)),
        merged matches Err(status) ==> status == INTERNAL_SERVER_ERROR,
{
    let ghost views = headers_view(values@);
    assert(views.subrange(0, views.len() as int) =~= views);
    let ghost goal = spec_set_string_values(headers_view(headers@), views);
    let mut merged: Vec<(String, String)> = Vec::new();
    let mut j: usize = 0;
    while j < headers.len()
        invariant
            j <= headers@.len(),
            headers_view(merged@) == headers_view(headers@.take(j as int)),
        decreases headers@.len() - j,
    {
        let ghost before = merged@;
        merged.push((String::from_str(headers[j].0.as_str()), String::from_str(headers[j].1.as_str())));
        proof {
            assert(headers@.take(j + 1) =~= headers@.take(j as int).push(headers@[j as int]));
            assert(headers_view(merged@) =~= headers_view(before).push((headers@[j as int].0@, headers@[j as int].1@)));
            assert(headers_view(headers@.take(j + 1)) =~= headers_view(headers@.take(j as int)).push(
                (headers@[j as int].0@, headers@[j as int].1@),
            ));
        }
        j = j + 1;
    }
    assert(headers@.take(headers@.len() as int) =~= headers@);
    let mut i: usize = 0;
    while i < values.len()
        invariant
            i <= values@.len(),
            views == headers_view(values@),
            goal == spec_set_string_values(headers_view(headers@), views),
            goal == spec_set_string_values(headers_view(merged@), views.subrange(i as int, views.len() as int)),
        decreases values@.len() - i,
    {
        let ghost rest = views.subrange(i as int, views.len() as int);
        assert(rest[0] == views[i as int]);
        assert(rest.drop_first() =~= views.subrange(i + 1, views.len() as int));
        let name = to_lowercase(values[i].0.as_str());
        assert(views[i as int] == (values@[i as int].0@, values@[i as int].1@));
        if is_header_name(name.as_str()) {
            if !is_header_value(values[i].1.as_str()) {
                return Err(INTERNAL_SERVER_ERROR);
            }
            let mut kept = remove_header(&merged, name.as_str());
            let ghost before = kept@;
            kept.push((name, String::from_str(values[i].1.as_str())));
            assert(headers_view(kept@) =~= headers_view(before).push((lower(values@[i as int].0@), values@[i as int].1@)));
            merged = kept;
        }
        i = i + 1;
    }
    Ok(merged)
}

} // verus!
