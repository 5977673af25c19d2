//! Access tokens: how a new token is made and the digest under which a token
//! is stored and looked up.
use vstd::prelude::*;

use sha2::{Digest, Sha256};

use crate::api::{bearer_spec, bearer_token, first_space};
use crate::text::lower_seq;
use crate::text::{push_str, string_from};

verus! {

/// The SHA-256 digest of a text's UTF-8 bytes, as `sha2::Sha256` computes it.
pub uninterp spec fn sha256_text(text: Seq<char>) -> Seq<u8>;

/// Hashes a token with `sha2::Sha256::digest` over its UTF-8 bytes. A
/// SHA-256 digest is 32 bytes long.
#[verifier::external_body]
fn hash_token(token: &str) -> (h: Vec<u8>)
    ensures
        h@ == sha256_text(token@),
        h@.len() == 32,
{
    Sha256::digest(token.as_bytes()).to_vec()
}

pub open spec fn is_lower_hex(c: char) -> bool {
    ('0' <= c && c <= '9') || ('a' <= c && c <= 'f')
}

/// Draws a fresh time-ordered UUID with `uuid::Uuid::now_v7` and writes it in
/// its simple form: 32 lowercase hexadecimal digits. Which UUID comes out
/// rests on the clock and a random source, so nothing more is stated of it.
#[verifier::external_body]
fn fresh_simple_uuid() -> (s: String)
    ensures
        s@.len() == 32,
        forall|i: int| 0 <= i < 32 ==> is_lower_hex(#[trigger] s@[i]),
{
    uuid::Uuid::now_v7().simple().to_string()
}

/// The shape of every token this server hands out: `synod_` followed by 64
/// lowercase hexadecimal digits.
pub open spec fn token_shape(t: Seq<char>) -> bool {
    &&& t.len() == 70
    &&& t.take(6) == "synod_"@
    &&& forall|i: int| 6 <= i < 70 ==> is_lower_hex(#[trigger] t[i])
}

/// A new secret token: `synod_` and the simple forms of two fresh UUIDs.
pub fn generate_token() -> (t: String)
    ensures
        token_shape(t@),
{
    let mut t = string_from("synod_");
    let a = fresh_simple_uuid();
    let b = fresh_simple_uuid();
    push_str(&mut t, a.as_str());
    push_str(&mut t, b.as_str());
    proof {
        reveal_strlit("synod_");
        assert(t@ == "synod_"@ + a@ + b@);
        assert(t@.take(6) =~= "synod_"@);
        assert forall|i: int| 6 <= i < 70 implies is_lower_hex(#[trigger] t@[i]) by {
            if i < 38 {
                assert(t@[i] == a@[i - 6]);
            } else {
                assert(t@[i] == b@[i - 38]);
            }
        }
    }
    t
}

/// A new token together with the digest under which it is stored; only the
/// digest is ever written to the database.
pub fn new_token_credentials() -> (r: (String, Vec<u8>))
    ensures
        token_shape(r.0@),
        r.1@ == sha256_text(r.0@),
{
    let token = generate_token();
    let digest = hash_token(token.as_str());
    (token, digest)
}

/// The digest to look up for an `Authorization` header value: that of its
/// bearer token, or `None` when the header carries no bearer token.
pub fn request_token_digest(authorization: &str) -> (r: Option<Vec<u8>>)
    ensures
        match bearer_spec(authorization@) {
            Some(t) => r is Some && r->0@ == sha256_text(t),
            None => r is None,
        },
{
    match bearer_token(authorization) {
        Some(token) => Some(hash_token(token.as_str())),
        None => None,
    }
}

/// A token this server issued, sent back as `Bearer <token>`, is read back
/// as that very token, so it is looked up under the digest stored for it.
pub proof fn law_issued_token_is_read_back(token: Seq<char>)
    requires
        token_shape(token),
    ensures
        bearer_spec("Bearer "@ + token) == Some(token),
{
    let h = "Bearer "@ + token;
    reveal_strlit("Bearer ");
    reveal_strlit("synod_");
    reveal_strlit("bearer");
    assert(h[6] == ' ');
    assert(first_space(h, 6) == 6);
    assert(first_space(h, 5) == 6);
    assert(first_space(h, 4) == 6);
    assert(first_space(h, 3) == 6);
    assert(first_space(h, 2) == 6);
    assert(first_space(h, 1) == 6);
    assert(first_space(h, 0) == 6);
    assert(lower_seq(h.take(6)) =~= lower_seq("bearer"@));
    assert(h.skip(7) =~= token);
}

} // verus!
