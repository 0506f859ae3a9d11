//! The guard in front of the update route: a request passes when it presents
//! the shared secret in its `X-Secret-Key` header.

use http::{HeaderMap, HeaderValue};
use vstd::prelude::*;
use vstd::utf8::encode_utf8;

verus! {

/// `http::HeaderMap`, the headers of a request. Nothing inside it is visible
/// here; `first_values` says what a lookup finds in it.
#[verifier::external_type_specification]
#[verifier::external_body]
#[verifier::reject_recursive_types(T)]
pub struct ExHeaderMap<T>(http::HeaderMap<T>);

/// `http::HeaderValue`, the value of one header: a string of bytes.
#[verifier::external_type_specification]
#[verifier::external_body]
pub struct ExHeaderValue(http::HeaderValue);

/// What a lookup sees of a header map: for each header name that the map
/// holds, written in lower case, the bytes of the first value stored under it.
pub uninterp spec fn first_values(headers: HeaderMap<HeaderValue>) -> Map<Seq<char>, Seq<u8>>;

/// The name of the header that carries the secret.
pub const SECRET_HEADER: &'static str = "X-Secret-Key";

/// A character in lower case, where it is an ASCII capital; itself otherwise.
pub open spec fn lower(c: char) -> char {
    if 'A' <= c && c <= 'Z' {
        ((c as u8 + 32) as u8) as char
    } else {
        c
    }
}

/// A header name as header maps store it.
pub open spec fn lowercase(name: Seq<char>) -> Seq<char> {
    name.map_values(|c: char| lower(c))
}

/// Names made of ASCII letters, digits and hyphens, of 1 to 64 characters.
/// Every such name is a valid header name.
pub open spec fn is_plain_name(name: Seq<char>) -> bool {
    &&& 1 <= name.len() <= 64
    &&& forall|i: int|
        0 <= i < name.len() ==> {
            let c = #[trigger] name[i];
            ||| 'a' <= c && c <= 'z'
            ||| 'A' <= c && c <= 'Z'
            ||| '0' <= c && c <= '9'
            ||| c == '-'
        }
}

/// Whether the headers carry `secret`, byte for byte, as the first value of
/// the secret header.
pub open spec fn presents_secret(values: Map<Seq<char>, Seq<u8>>, secret: Seq<char>) -> bool {
    let name = lowercase(SECRET_HEADER@);
    values.contains_key(name) && values[name] == encode_utf8(secret)
}

/// The secret header is looked up as `x-secret-key`: however a request spells
/// the name, the header map holds it in lower case.
pub proof fn lemma_secret_header_in_lower_case()
    ensures
        is_plain_name(SECRET_HEADER@),
        lowercase(SECRET_HEADER@) == "x-secret-key"@,
{
    reveal_strlit("X-Secret-Key");
    reveal_strlit("x-secret-key");
    assert(lowercase(SECRET_HEADER@) =~= "x-secret-key"@);
}

/// Calls `HeaderMap::get` with a string key and, on the value found,
/// `HeaderValue::as_bytes`. `get` turns the key into a header name, which for a
/// plain name of at most 64 bytes means mapping it to lower case, and returns
/// the first value stored under that name, or `None` where the map has none.
#[verifier::external_body]
pub(crate) fn first_value<'a>(headers: &'a HeaderMap<HeaderValue>, name: &str) -> (r: Option<
    &'a [u8],
>)
    requires
        is_plain_name(name@),
    ensures
        match r {
            Some(value) => first_values(*headers).contains_key(lowercase(name@)) && first_values(
                *headers,
            )[lowercase(name@)] == value@,
            None => !first_values(*headers).contains_key(lowercase(name@)),
        },
{
    match headers.get(name) {
        Some(value) => Some(value.as_bytes()),
        None => None,
    }
}

/// Compares two byte strings without stopping at the first difference, so
/// that the time taken does not tell where they differ.
pub fn same_bytes(a: &[u8], b: &[u8]) -> (same: bool)
    ensures
        same == (a@ == b@),
{
    if a.len() != b.len() {
        return false;
    }
    let mut difference: u8 = 0;
    let mut i: usize = 0;
    while i < a.len()
        invariant
            a.len() == b.len(),
            i <= a.len(),
            difference == 0 <==> (forall|j: int| 0 <= j < i ==> a@[j] == b@[j]),
        decreases a.len() - i,
    {
        let x: u8 = a[i];
        let y: u8 = b[i];
        let seen: u8 = difference;
        difference = seen | (x ^ y);
        proof {
            assert((seen | (x ^ y)) == 0 <==> seen == 0 && x == y) by (bit_vector);
        }
        i += 1;
    }
    proof {
        if difference == 0 {
            assert(a@ =~= b@);
        }
    }
    difference == 0
}

/// Decides whether a request may pass: it may exactly when its headers hold a
/// secret header whose first value equals the secret byte for byte. A missing
/// header and a wrong value are both refused.
pub fn authorize(headers: &HeaderMap<HeaderValue>, secret: &str) -> (allowed: bool)
    ensures
        allowed == presents_secret(first_values(*headers), secret@),
{
    proof {
        reveal_strlit("X-Secret-Key");
    }
    match first_value(headers, SECRET_HEADER) {
        Some(presented) => same_bytes(presented, secret.as_bytes()),
        None => false,
    }
}

} // verus!
