//! Reading claims from the payload of a JSON Web Token without checking its
//! signature.

use vstd::prelude::*;

use crate::encoding::{
    base64_url, base64_url_decode, latin1, lemma_base64_url_ascii, lemma_base64_url_injective,
};
use crate::json::{
    json_as_i64, json_as_str, json_content, json_document, json_from_slice, json_get, json_i64,
    json_member, json_str, JsonModel,
};
use crate::text::{find_char, lemma_scan_to, scan_to};

verus! {

/// The second field of `s` split at `sep`, as `s.split(sep).nth(1)` gives
/// it: the text between the first and the second `sep`, or to the end.
pub open spec fn second_field(s: Seq<char>, sep: char) -> Option<Seq<char>> {
    let i = scan_to(s, sep, 0);
    if i >= s.len() {
        None
    } else {
        Some(s.subrange(i + 1, scan_to(s, sep, i + 1)))
    }
}

/// The bytes whose unpadded URL-safe base64 is the text `t`, if any.
pub open spec fn base64_url_decoded(t: Seq<char>) -> Option<Seq<u8>> {
    let bytes = latin1(vstd::utf8::encode_utf8(t));
    if exists|b: Seq<u8>| base64_url(b) == bytes {
        Some(choose|b: Seq<u8>| base64_url(b) == bytes)
    } else {
        None
    }
}

/// The claims of a JWT: its second dot-separated segment, base64-decoded
/// and read as a JSON document.
pub open spec fn jwt_payload_spec(token: Seq<char>) -> Option<JsonModel> {
    match second_field(token, '.') {
        None => None,
        Some(segment) => match base64_url_decoded(segment) {
            None => None,
            Some(bytes) => json_document(bytes),
        },
    }
}

/// The string claim `name` of a JWT.
pub open spec fn jwt_claim_spec(token: Seq<char>, name: Seq<char>) -> Option<Seq<char>> {
    match jwt_payload_spec(token) {
        None => None,
        Some(claims) => match json_member(claims, name) {
            None => None,
            Some(v) => json_str(v),
        },
    }
}

/// The string member `name` of the object claim `namespace` of a JWT.
pub open spec fn jwt_nested_claim_spec(
    token: Seq<char>,
    namespace: Seq<char>,
    name: Seq<char>,
) -> Option<Seq<char>> {
    match jwt_payload_spec(token) {
        None => None,
        Some(claims) => match json_member(claims, namespace) {
            None => None,
            Some(inner) => match json_member(inner, name) {
                None => None,
                Some(v) => json_str(v),
            },
        },
    }
}

/// The integer claim `name` of a JWT, where it fits in an `i64`.
pub open spec fn jwt_claim_i64_spec(token: Seq<char>, name: Seq<char>) -> Option<i64> {
    match jwt_payload_spec(token) {
        None => None,
        Some(claims) => match json_member(claims, name) {
            None => None,
            Some(v) => json_i64(v),
        },
    }
}

/// The view of an optional `String`.
pub open spec fn opt_text(o: Option<String>) -> Option<Seq<char>> {
    match o {
        Some(s) => Some(s@),
        None => None,
    }
}

/// The payload segment of a JWT, `token.split('.').nth(1)`.
pub fn payload_segment(token: &str) -> (r: Option<&str>)
    ensures
        match r {
            Some(s) => second_field(token@, '.') == Some(s@),
            None => second_field(token@, '.') is None,
        },
{
    let n = token.unicode_len();
    let i = find_char(token, '.', 0);
    if i >= n {
        return None;
    }
    proof {
        lemma_scan_to(token@, '.', 0);
        lemma_scan_to(token@, '.', i + 1);
    }
    let j = find_char(token, '.', i + 1);
    Some(token.substring_char(i + 1, j))
}

/// The claims of a JWT, decoded without checking its signature.
pub fn jwt_payload(token: &str) -> (r: Option<serde_json::Value>)
    ensures
        match r {
            Some(v) => jwt_payload_spec(token@) == Some(json_content(v)),
            None => jwt_payload_spec(token@) is None,
        },
{
    let segment = match payload_segment(token) {
        Some(s) => s,
        None => return None,
    };
    let decoded = match base64_url_decode(segment.as_bytes()) {
        Ok(b) => b,
        Err(_) => return None,
    };
    proof {
        let bytes = latin1(vstd::utf8::encode_utf8(segment@));
        assert(base64_url(decoded@) == bytes);
        let c = choose|b: Seq<u8>| base64_url(b) == bytes;
        lemma_base64_url_injective(c, decoded@);
        assert(base64_url_decoded(segment@) == Some(decoded@));
    }
    match json_from_slice(decoded.as_slice()) {
        Ok(v) => Some(v),
        Err(_) => None,
    }
}

/// The string claim `name` of a JWT.
pub fn jwt_claim(token: &str, name: &str) -> (r: Option<String>)
    ensures
        opt_text(r) == jwt_claim_spec(token@, name@),
{
    let claims = match jwt_payload(token) {
        Some(v) => v,
        None => return None,
    };
    match json_get(&claims, name) {
        Some(v) => match json_as_str(v) {
            Some(s) => Some(s.to_owned()),
            None => None,
        },
        None => None,
    }
}

/// The string member `name` of the object claim `namespace` of a JWT.
pub fn jwt_nested_claim(token: &str, namespace: &str, name: &str) -> (r: Option<String>)
    ensures
        opt_text(r) == jwt_nested_claim_spec(token@, namespace@, name@),
{
    let claims = match jwt_payload(token) {
        Some(v) => v,
        None => return None,
    };
    let inner = match json_get(&claims, namespace) {
        Some(v) => v,
        None => return None,
    };
    match json_get(inner, name) {
        Some(v) => match json_as_str(v) {
            Some(s) => Some(s.to_owned()),
            None => None,
        },
        None => None,
    }
}

/// The integer claim `name` of a JWT, where it fits in an `i64`.
pub fn jwt_claim_i64(token: &str, name: &str) -> (r: Option<i64>)
    ensures
        r == jwt_claim_i64_spec(token@, name@),
{
    let claims = match jwt_payload(token) {
        Some(v) => v,
        None => return None,
    };
    match json_get(&claims, name) {
        Some(v) => json_as_i64(v),
        None => None,
    }
}


proof fn lemma_scan_finds(s: Seq<char>, c: char, i: int, k: int)
    requires
        0 <= i <= k < s.len(),
        s[k] == c,
        forall|j: int| i <= j < k ==> s[j] != c,
    ensures
        scan_to(s, c, i) == k,
    decreases k - i,
{
    if i < k {
        lemma_scan_finds(s, c, i + 1, k);
    }
}

/// The claims of a token are the JSON document that its payload segment
/// encodes: for a header without `.`, the token
/// `header.base64url(payload).signature` carries the claims that `payload`
/// holds, whatever the signature.
pub proof fn lemma_jwt_payload_encoded(header: Seq<char>, payload: Seq<u8>, signature: Seq<char>)
    requires
        forall|i: int| 0 <= i < header.len() ==> header[i] != '.',
    ensures
        jwt_payload_spec(header + seq!['.'] + base64_url(payload) + seq!['.'] + signature)
            == json_document(payload),
{
    let e = base64_url(payload);
    let t = header + seq!['.'] + e + seq!['.'] + signature;
    let h = header.len() as int;
    lemma_base64_url_ascii(payload);
    assert forall|j: int| 0 <= j < h implies t[j] != '.' by {
        assert(t[j] == header[j]);
    }
    lemma_scan_finds(t, '.', 0, h);
    assert forall|j: int| h + 1 <= j < h + 1 + e.len() implies t[j] != '.' by {
        assert(t[j] == e[j - h - 1]);
    }
    lemma_scan_finds(t, '.', h + 1, h + 1 + e.len());
    assert(t.subrange(h + 1, h + 1 + e.len()) =~= e);
    assert(second_field(t, '.') == Some(e));
    assert forall|i: int| 0 <= i < e.len() implies '\0' <= #[trigger] e[i] && e[i] <= '\u{7f}' by {
        assert(e[i] <= '\u{7f}');
    }
    assert(vstd::utf8::is_ascii_chars(e));
    vstd::utf8::is_ascii_chars_encode_utf8(e);
    assert(latin1(vstd::utf8::encode_utf8(e)) =~= e);
    let bytes = latin1(vstd::utf8::encode_utf8(e));
    assert(base64_url(payload) == bytes);
    let c = choose|b: Seq<u8>| base64_url(b) == bytes;
    lemma_base64_url_injective(c, payload);
}

} // verus!
