//! Fingerprints of documents: the SHA-256 of their whitespace-free compact
//! JSON text, in lower-case hexadecimal.  They tell whether a document was
//! changed since it was written.
use vstd::prelude::*;
use vstd::utf8::encode_utf8;

use sha2::Digest;

use crate::config::jsonc::{json_compact_text, spec_json_compact};
use crate::json::{law_members_any_order, member_keys_distinct, members_model, Json, JsonValue};

verus! {

/// The characters with the Unicode `White_Space` property.
pub open spec fn is_unicode_whitespace(c: char) -> bool {
    let n = c as u32;
    (0x9 <= n <= 0xd) || n == 0x20 || n == 0x85 || n == 0xa0 || n == 0x1680 || (0x2000 <= n
        <= 0x200a) || n == 0x2028 || n == 0x2029 || n == 0x202f || n == 0x205f || n == 0x3000
}

/// `s` with its whitespace characters removed.
pub open spec fn without_whitespace(s: Seq<char>) -> Seq<char>
    decreases s.len(),
{
    if s.len() == 0 {
        s
    } else if is_unicode_whitespace(s.last()) {
        without_whitespace(s.drop_last())
    } else {
        without_whitespace(s.drop_last()).push(s.last())
    }
}

/// The SHA-256 digest of a byte sequence.
pub uninterp spec fn spec_sha256(data: Seq<u8>) -> Seq<u8>;

/// The lower-case hexadecimal digit of a value below sixteen.
pub open spec fn hex_digit(n: int) -> char {
    if n < 10 {
        (n + 48) as char
    } else {
        (n + 87) as char
    }
}

/// Two lower-case hexadecimal digits per byte, high digit first.
pub open spec fn hex_lower(data: Seq<u8>) -> Seq<char>
    decreases data.len(),
{
    if data.len() == 0 {
        Seq::empty()
    } else {
        hex_lower(data.drop_last()) + seq![hex_digit(data.last() as int / 16), hex_digit(data.last() as int % 16)]
    }
}

/// Hexadecimal text has two digits per byte.
pub proof fn lemma_hex_lower_len(data: Seq<u8>)
    ensures
        hex_lower(data).len() == 2 * data.len(),
    decreases data.len(),
{
    if data.len() > 0 {
        lemma_hex_lower_len(data.drop_last());
    }
}

/// The fingerprint of a value.
pub open spec fn spec_fingerprint(v: Json) -> Seq<char> {
    hex_lower(spec_sha256(encode_utf8(without_whitespace(spec_json_compact(v)))))
}

/// Calls `char::is_whitespace`, which the standard library documents as
/// the Unicode `White_Space` property.
#[verifier::external_body]
fn char_is_whitespace(c: char) -> (r: bool)
    ensures
        r == is_unicode_whitespace(c),
{
    c.is_whitespace()
}

/// Calls `sha2::Sha256::digest`: the 32-byte SHA-256 digest of the data.
/// The contract names the digest and states its length.
#[verifier::external_body]
fn sha256_digest(data: &[u8]) -> (r: Vec<u8>)
    ensures
        r@ == spec_sha256(data@),
        r@.len() == 32,
{
    sha2::Sha256::digest(data).to_vec()
}

/// Calls `hex::encode`: two lower-case hexadecimal digits per byte.
#[verifier::external_body]
fn hex_encode(data: &[u8]) -> (r: String)
    ensures
        r@ == hex_lower(data@),
{
    hex::encode(data)
}

/// `s` with its whitespace characters removed.
fn strip_whitespace(s: &str) -> (r: String)
    ensures
        r@ == without_whitespace(s@),
{
    let n = s.unicode_len();
    let mut out = String::new();
    let mut i: usize = 0;
    proof {
        assert(s@.take(0) =~= Seq::<char>::empty());
    }
    while i < n
        invariant
            n == s@.len(),
            i <= n,
            out@ == without_whitespace(s@.take(i as int)),
        decreases n - i,
    {
        let c = s.get_char(i);
        proof {
            assert(s@.take(i + 1).drop_last() =~= s@.take(i as int));
            assert(s@.take(i + 1).last() == c);
        }
        if !char_is_whitespace(c) {
            let piece = s.substring_char(i, i + 1);
            proof {
                assert(piece@ =~= seq![c]);
            }
            out.append(piece);
            proof {
                assert(out@ =~= without_whitespace(s@.take(i as int)).push(c));
            }
        }
        i = i + 1;
    }
    proof {
        assert(s@.take(n as int) =~= s@);
    }
    out
}

/// The fingerprint of a document: the SHA-256 of its compact JSON text with
/// all whitespace removed, in lower-case hexadecimal.  It depends only on the
/// document's value, not on the order of object members.
pub fn fingerprint(value: &JsonValue) -> (r: String)
    ensures
        r@ == spec_fingerprint(value@),
        r@.len() == 64,
{
    let text = json_compact_text(value);
    let normalized = strip_whitespace(text.as_str());
    let digest = sha256_digest(normalized.as_str().as_bytes());
    proof {
        lemma_hex_lower_len(digest@);
    }
    hex_encode(digest.as_slice())
}

/// Two objects holding the same members (with distinct keys) in a
/// different order have the same fingerprint.
pub proof fn law_fingerprint_member_order(s: Seq<(String, JsonValue)>, t: Seq<(String, JsonValue)>)
    requires
        member_keys_distinct(s),
        t.to_multiset() == s.to_multiset(),
    ensures
        spec_fingerprint(Json::Object(members_model(s))) == spec_fingerprint(Json::Object(members_model(t))),
{
    law_members_any_order(s, t);
}

/// Removing whitespace drops the whitespace characters and nothing else:
/// every other character of `s` is kept, in order.
pub proof fn law_without_whitespace_keeps_the_rest(s: Seq<char>)
    ensures
        without_whitespace(s) == s.filter(|c: char| !is_unicode_whitespace(c)),
    decreases s.len(),
{
    reveal(Seq::filter);
    if s.len() > 0 {
        law_without_whitespace_keeps_the_rest(s.drop_last());
    }
}

/// Among ASCII characters, only tab, line feed, vertical tab, form feed,
/// carriage return and space are whitespace: letters, digits and
/// punctuation are not.
pub proof fn law_ascii_whitespace(c: char)
    requires
        (c as u32) < 128,
    ensures
        is_unicode_whitespace(c) <==> (c == ' ' || c == '\t' || c == '\n' || c == '\r' || (c as u32) == 0xb
            || (c as u32) == 0xc),
{
}

/// The fingerprint hashes the compact JSON text of the document with only
/// its whitespace removed: two documents whose texts differ in any other
/// character are hashed from different texts.
pub proof fn law_fingerprint_input(a: Json, b: Json)
    ensures
        spec_fingerprint(a) == hex_lower(
            spec_sha256(encode_utf8(spec_json_compact(a).filter(|c: char| !is_unicode_whitespace(c)))),
        ),
        spec_json_compact(a).filter(|c: char| !is_unicode_whitespace(c)) != spec_json_compact(b).filter(
            |c: char| !is_unicode_whitespace(c),
        ) ==> without_whitespace(spec_json_compact(a)) != without_whitespace(spec_json_compact(b)),
{
    law_without_whitespace_keeps_the_rest(spec_json_compact(a));
    law_without_whitespace_keeps_the_rest(spec_json_compact(b));
}

} // verus!
