//! Token authentication.

use axum::http::HeaderMap;
use axum::http::HeaderValue;
use subtle::ConstantTimeEq;
use vstd::prelude::*;
use vstd::utf8::decode_utf8;
use vstd::utf8::encode_utf8;
use vstd::utf8::encode_utf8_decode_utf8;

use crate::text::all_blank;
use crate::text::begins_with;
use crate::text::law_trimmed;
use crate::text::solid;
use crate::text::text_of_ref;
use crate::text::trim;
use crate::text::trimmed;

verus! {

/// The header collection of `http`, as `axum` hands it to a handler.
#[verifier::external_type_specification]
#[verifier::external_body]
#[verifier::reject_recursive_types(T)]
pub struct ExHeaderMap<T>(axum::http::HeaderMap<T>);

/// A header value of `http`: some bytes.
#[verifier::external_type_specification]
#[verifier::external_body]
pub struct ExHeaderValue(axum::http::HeaderValue);

/// The values of each header, in order, by the lower-case header name.
pub uninterp spec fn header_values(headers: HeaderMap<HeaderValue>) -> Map<Seq<char>, Seq<Seq<u8>>>;

/// The bytes of a header value.
pub uninterp spec fn header_bytes(value: HeaderValue) -> Seq<u8>;

/// `HeaderMap::get` with the name `authorization`: the first value of that
/// header, or nothing without the header.
#[verifier::external_body]
fn authorization_value<'a>(headers: &'a HeaderMap<HeaderValue>) -> (r: Option<&'a HeaderValue>)
    ensures
        match r {
            Some(v) => header_values(*headers).contains_key("authorization"@) && header_values(
                *headers,
            )["authorization"@].len() > 0 && header_bytes(*v) == header_values(
                *headers,
            )["authorization"@][0],
            None => !header_values(*headers).contains_key("authorization"@),
        },
{
    headers.get(axum::http::header::AUTHORIZATION)
}

/// Bytes that a header value may hold to be read as text: visible ASCII, the
/// space and the tab.
pub open spec fn visible(b: u8) -> bool {
    32 <= b < 127 || b == 9
}

/// The text of a header value, where all of its bytes are visible.
pub open spec fn header_text_of(bytes: Seq<u8>) -> Option<Seq<char>> {
    if forall|i: int| 0 <= i < bytes.len() ==> visible(#[trigger] bytes[i]) {
        Some(Seq::new(bytes.len(), |i: int| bytes[i] as char))
    } else {
        None
    }
}

/// `HeaderValue::to_str`: the text of the value when all bytes are visible
/// ASCII, the space or the tab.
#[verifier::external_body]
fn header_text<'a>(value: &'a HeaderValue) -> (r: Option<&'a str>)
    ensures
        text_of_ref(r) == header_text_of(header_bytes(*value)),
{
    value.to_str().ok()
}

/// `ConstantTimeEq::ct_eq` of `subtle` on byte slices: whether they are equal.
/// The time it takes depends on the lengths alone, which is not stated here.
#[verifier::external_body]
fn equal_bytes(a: &[u8], b: &[u8]) -> (r: bool)
    ensures
        r == (a@ == b@),
{
    a.ct_eq(b).into()
}

/// The text of the `Authorization` header, if it has one.
pub open spec fn authorization_of(headers: HeaderMap<HeaderValue>) -> Option<Seq<char>> {
    if header_values(headers).contains_key("authorization"@) {
        header_text_of(header_values(headers)["authorization"@][0])
    } else {
        None
    }
}

/// The token of an `Authorization: Bearer` header.
pub open spec fn bearer(authorization: Option<Seq<char>>) -> Option<Seq<char>> {
    match authorization {
        Some(v) => if "Bearer "@.is_prefix_of(v) {
            Some(trimmed(v.skip("Bearer "@.len() as int)))
        } else {
            None
        },
        None => None,
    }
}

/// The token that a request carries: the query parameter, or else the bearer
/// token.
pub open spec fn provided_token(
    query_token: Option<Seq<char>>,
    authorization: Option<Seq<char>>,
) -> Option<Seq<char>> {
    match query_token {
        Some(t) => Some(t),
        None => bearer(authorization),
    }
}

/// Without an expected token every request is accepted, else only one that
/// carries that very token.
pub open spec fn accepted(
    expected: Option<Seq<char>>,
    query_token: Option<Seq<char>>,
    authorization: Option<Seq<char>>,
) -> bool {
    match expected {
        Some(e) => provided_token(query_token, authorization) == Some(e),
        None => true,
    }
}

/// Whether two texts are the same, by their bytes and in constant time.
fn equal_texts(a: &str, b: &str) -> (r: bool)
    ensures
        r == (a@ == b@),
{
    proof {
        encode_utf8_decode_utf8(a@);
        encode_utf8_decode_utf8(b@);
        assert(encode_utf8(a@) == encode_utf8(b@) ==> decode_utf8(encode_utf8(a@)) == decode_utf8(
            encode_utf8(b@),
        ));
    }
    equal_bytes(a.as_bytes(), b.as_bytes())
}

/// Checks the token that a request carries, as query parameter or in the text
/// of its `Authorization` header, against the expected one.
pub fn is_token_accepted(
    expected: Option<&str>,
    query_token: Option<&str>,
    authorization: Option<&str>,
) -> (r: bool)
    ensures
        r == accepted(
            text_of_ref(expected),
            text_of_ref(query_token),
            text_of_ref(authorization),
        ),
{
    let expected = match expected {
        Some(e) => e,
        None => return true,
    };
    let token = match query_token {
        Some(t) => Some(t),
        None => match authorization {
            Some(v) => {
                if begins_with(v, "Bearer ") {
                    let n: usize = v.unicode_len();
                    let p: usize = "Bearer ".unicode_len();
                    assert(v@.skip(p as int) =~= v@.subrange(p as int, n as int));
                    Some(trim(v.substring_char(p, n)))
                } else {
                    None
                }
            },
            None => None,
        },
    };
    match token {
        Some(t) => equal_texts(t, expected),
        None => false,
    }
}

/// Checks the client token against the configured one.
///
/// The token is accepted either as a `?token=` query parameter or as an
/// `Authorization: Bearer` header. When no token is configured,
/// authentication is disabled and every request is accepted.
pub fn is_authorized(
    expected: Option<&str>,
    query_token: Option<&str>,
    headers: &HeaderMap<HeaderValue>,
) -> (r: bool)
    ensures
        r == accepted(
            text_of_ref(expected),
            text_of_ref(query_token),
            authorization_of(*headers),
        ),
{
    let authorization = match authorization_value(headers) {
        Some(value) => header_text(value),
        None => None,
    };
    is_token_accepted(expected, query_token, authorization)
}

/// A request without any token is accepted only when authentication is
/// disabled, and a query token decides alone when it is there.
pub proof fn law_token_needed(
    expected: Option<Seq<char>>,
    query_token: Option<Seq<char>>,
    authorization: Option<Seq<char>>,
)
    ensures
        expected is None ==> accepted(expected, query_token, authorization),
        query_token is None && authorization is None ==> (accepted(
            expected,
            query_token,
            authorization,
        ) <==> expected is None),
        query_token is Some && expected is Some ==> (accepted(expected, query_token, authorization)
            <==> query_token == expected),
{
}

/// A bearer token is accepted exactly when it is the expected one, whatever
/// white space stands around it; a header of another scheme carries no token.
pub proof fn law_bearer_token(
    expected: Seq<char>,
    a: Seq<char>,
    token: Seq<char>,
    b: Seq<char>,
    other: Seq<char>,
)
    requires
        all_blank(a),
        all_blank(b),
        solid(token) || token.len() == 0,
        other.len() < 7 || other.take(7) != "Bearer "@,
    ensures
        accepted(Some(expected), None, Some("Bearer "@ + (a + token + b))) <==> token == expected,
        !accepted(Some(expected), None, Some(other)),
{
    reveal_strlit("Bearer ");
    let v = "Bearer "@ + (a + token + b);
    assert(v.subrange(0, 7) =~= "Bearer "@);
    assert("Bearer "@.is_prefix_of(v));
    assert(v.skip(7) =~= a + token + b);
    law_trimmed(a, token, b);
    if "Bearer "@.is_prefix_of(other) {
        assert(other.take(7) =~= "Bearer "@);
    }
}

/// A header value is text exactly when all of its bytes are visible ASCII, the
/// space or the tab, and then it is read byte for byte. The first value of the
/// `authorization` header is the one that counts.
pub proof fn law_header_text(bytes: Seq<u8>, headers: HeaderMap<HeaderValue>)
    ensures
        header_text_of(bytes) is Some <==> forall|i: int|
            0 <= i < bytes.len() ==> 32 <= #[trigger] bytes[i] <= 126 || bytes[i] == 9,
        header_text_of(bytes) matches Some(t) ==> t.len() == bytes.len() && forall|i: int|
            0 <= i < bytes.len() ==> #[trigger] t[i] as u32 == bytes[i] as u32,
        header_values(headers).contains_key("authorization"@) ==> authorization_of(headers)
            == header_text_of(header_values(headers)["authorization"@][0]),
        !header_values(headers).contains_key("authorization"@) ==> authorization_of(headers)
            is None,
{
    if header_text_of(bytes) is Some {
        let t = header_text_of(bytes)->0;
        assert forall|i: int| 0 <= i < bytes.len() implies #[trigger] t[i] as u32
            == bytes[i] as u32 by {
            assert(visible(bytes[i]));
        }
        assert forall|i: int| 0 <= i < bytes.len() implies 32 <= #[trigger] bytes[i] <= 126
            || bytes[i] == 9 by {
            assert(visible(bytes[i]));
        }
    } else {
        let i = choose|i: int| 0 <= i < bytes.len() && !visible(#[trigger] bytes[i]);
        assert(!(32 <= bytes[i] <= 126 || bytes[i] == 9));
    }
}

} // verus!
