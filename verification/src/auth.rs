use vstd::prelude::*;

use crate::claims::{
    claims_of_payload,
    claims_text,
    spec_claims,
    spec_claims_payload,
    spec_names_user,
    Payload,
    PayloadText,
};
use crate::models::utf8_len;
use vstd::utf8::encode_utf8;

verus! {

/// Name of the cookie that carries the signed user token.
pub const COOKIE_NAME: &'static str = "user";

/// Who is logged in: what the signed cookie says about the user.
pub struct UserToken {
    pub id: i32,
    pub name: String,
}

/// A user token for routes that let anonymous visitors through to another
/// handler instead of refusing them.
pub struct ForwardUserToken(pub UserToken);

// ---------------------------------------------------------------------------
// Password digests
// ---------------------------------------------------------------------------

/// The 32-byte Argon2i digest (argon2rs default parameters) of `password`
/// salted with `salt`, both taken as their UTF-8 bytes.
pub uninterp spec fn spec_argon2i(password: Seq<char>, salt: Seq<char>) -> Seq<u8>;

/// Whether argon2rs accepts a salt: it asserts a length of 8 to 2^32-1 bytes.
pub open spec fn salt_accepted(salt: Seq<char>) -> bool {
    8 <= utf8_len(salt) <= 0xffff_ffff
}

/// Whether argon2rs accepts a password: it asserts at most 2^32-1 bytes.
pub open spec fn password_accepted(password: Seq<char>) -> bool {
    utf8_len(password) <= 0xffff_ffff
}

/// Hashes with `argon2rs::argon2i_simple(password, salt)`. That function
/// panics unless the salt has 8 to 2^32-1 bytes and the password at most
/// 2^32-1 bytes, hence the `requires`. Claimed: the digest is 32 bytes long
/// and is `spec_argon2i(password@, salt@)`; the Argon2 computation itself is
/// not stated.
#[verifier::external_body]
fn argon2i_digest(password: &str, salt: &str) -> (d: Vec<u8>)
    requires
        salt_accepted(salt@),
        password_accepted(password@),
    ensures
        d@ == spec_argon2i(password@, salt@),
        d@.len() == 32,
{
    argon2rs::argon2i_simple(password, salt).to_vec()
}

/// The character of the standard base64 alphabet for the 6-bit value `v`.
pub open spec fn base64_char(v: int) -> char {
    if v < 26 {
        ('A' as int + v) as char
    } else if v < 52 {
        ('a' as int + (v - 26)) as char
    } else if v < 62 {
        ('0' as int + (v - 52)) as char
    } else if v == 62 {
        '+'
    } else {
        '/'
    }
}

/// Standard base64 (RFC 4648 alphabet, `=` padding) of `b`: every 3 bytes
/// become 4 characters; a trailing group of 1 or 2 bytes is padded.
pub open spec fn spec_base64(b: Seq<u8>) -> Seq<char>
    decreases b.len(),
{
    if b.len() == 0 {
        Seq::<char>::empty()
    } else {
        let b0 = b[0] as int;
        let b1 = if b.len() > 1 { b[1] as int } else { 0 };
        let b2 = if b.len() > 2 { b[2] as int } else { 0 };
        if b.len() == 1 {
            seq![base64_char(b0 / 4), base64_char((b0 % 4) * 16), '=', '=']
        } else if b.len() == 2 {
            seq![
                base64_char(b0 / 4),
                base64_char((b0 % 4) * 16 + b1 / 16),
                base64_char((b1 % 16) * 4),
                '=',
            ]
        } else {
            seq![
                base64_char(b0 / 4),
                base64_char((b0 % 4) * 16 + b1 / 16),
                base64_char((b1 % 16) * 4 + b2 / 64),
                base64_char(b2 % 64),
            ] + spec_base64(b.subrange(3, b.len() as int))
        }
    }
}

/// The character of the URL-safe base64 alphabet for the 6-bit value `v`.
pub open spec fn base64url_char(v: int) -> char {
    if v < 62 {
        base64_char(v)
    } else if v == 62 {
        '-'
    } else {
        '_'
    }
}

/// URL-safe base64 of `b` without padding: every 3 bytes become 4
/// characters; a trailing group of 1 or 2 bytes becomes 2 or 3 characters.
pub open spec fn spec_base64url(b: Seq<u8>) -> Seq<char>
    decreases b.len(),
{
    if b.len() == 0 {
        Seq::<char>::empty()
    } else {
        let b0 = b[0] as int;
        let b1 = if b.len() > 1 { b[1] as int } else { 0 };
        let b2 = if b.len() > 2 { b[2] as int } else { 0 };
        if b.len() == 1 {
            seq![base64url_char(b0 / 4), base64url_char((b0 % 4) * 16)]
        } else if b.len() == 2 {
            seq![
                base64url_char(b0 / 4),
                base64url_char((b0 % 4) * 16 + b1 / 16),
                base64url_char((b1 % 16) * 4),
            ]
        } else {
            seq![
                base64url_char(b0 / 4),
                base64url_char((b0 % 4) * 16 + b1 / 16),
                base64url_char((b1 % 16) * 4 + b2 / 64),
                base64url_char(b2 % 64),
            ] + spec_base64url(b.subrange(3, b.len() as int))
        }
    }
}

/// Base64 writes 4 characters for every 3 bytes, a padded trailing group
/// counting whole; the URL-safe unpadded form writes only the characters
/// that carry bits.
pub proof fn lemma_base64_lengths(b: Seq<u8>)
    ensures
        spec_base64(b).len() == 4 * ((b.len() + 2) / 3),
        spec_base64url(b).len() == (4 * b.len() + 2) / 3,
    decreases b.len(),
{
    if b.len() > 2 {
        lemma_base64_lengths(b.subrange(3, b.len() as int));
    }
}

/// Encodes with `base64::encode`, whose configuration is `STANDARD`: the
/// standard alphabet with padding. Claimed: the result is `spec_base64(bytes@)`.
#[verifier::external_body]
fn base64_encode(bytes: &[u8]) -> (s: String)
    ensures
        s@ == spec_base64(bytes@),
{
    base64::encode(bytes)
}

/// The stored form of a password: base64 of its Argon2i digest under `salt`.
pub open spec fn spec_password_digest(password: Seq<char>, salt: Seq<char>) -> Seq<char> {
    spec_base64(spec_argon2i(password, salt))
}

/// The stored form of `password`, salted with `salt`.
pub fn password_digest(password: &str, salt: &str) -> (d: String)
    requires
        salt_accepted(salt@),
        password_accepted(password@),
    ensures
        d@ == spec_password_digest(password@, salt@),
{
    let digest = argon2i_digest(password, salt);
    base64_encode(digest.as_slice())
}

// ---------------------------------------------------------------------------
// Signed tokens
// ---------------------------------------------------------------------------

/// The JSON web token that frank_jwt makes, with HS256 under `secret`, of
/// the header and payload texts once serde_json has parsed them; `None` when
/// the payload is not JSON or signing fails.
pub uninterp spec fn spec_jwt_encode(header: Seq<char>, payload: Seq<char>, secret: Seq<char>) -> Option<
    Seq<char>,
>;

/// The payload of `token` when frank_jwt finds its HS256 signature valid
/// under `secret`, as texts (each member or element written back as JSON
/// by serde_json, object members in serde_json's key order); `None` when
/// the token is refused.
pub uninterp spec fn spec_jwt_decode(token: Seq<char>, secret: Seq<char>) -> Option<PayloadText>;

/// The HMAC-SHA256 of `message` under `key`, as OpenSSL's signer computes it.
pub uninterp spec fn spec_hmac_sha256(key: Seq<u8>, message: Seq<u8>) -> Seq<u8>;

/// The text that a token's signature covers: the header and payload
/// segments joined by `.`.
pub open spec fn spec_signing_input(header: Seq<char>, payload: Seq<char>) -> Seq<char> {
    header + seq!['.'] + payload
}

/// `token` is a header segment, a payload segment and a signature segment
/// joined by `.`, and the signature segment is the URL-safe base64 (no
/// padding) of the HMAC-SHA256, keyed with the bytes of `secret`, of the
/// bytes of the first two segments joined by `.`.
pub open spec fn spec_signed_by(token: Seq<char>, secret: Seq<char>) -> bool {
    exists|header: Seq<char>, payload: Seq<char>|
        #![trigger spec_signing_input(header, payload)]
        !header.contains('.') && !payload.contains('.') && token == spec_signing_input(header, payload)
            + seq!['.'] + spec_base64url(
            spec_hmac_sha256(encode_utf8(secret), encode_utf8(spec_signing_input(header, payload))),
        )
}

/// How many `.` the text holds.
pub open spec fn spec_dot_count(s: Seq<char>) -> nat {
    s.filter(|c: char| c == '.').len()
}

/// Parses the header and payload texts with `serde_json::from_str` and signs
/// them with `frank_jwt::encode` (HS256, key: the secret's bytes). The
/// header must be `{}`: `encode` sets members of the header, and serde_json
/// panics when that value is not an object. Claimed: the result is
/// `spec_jwt_encode(header@, payload@, secret@)`, a function of the three
/// texts (serde_json's map keeps its keys sorted, HMAC is deterministic); the
/// token's layout, the HMAC, and whether OpenSSL's signer fails are not
/// stated.
#[verifier::external_body]
fn jwt_encode_hs256(header: &str, payload: &str, secret: &String) -> (token: Option<String>)
    requires
        header@ == empty_header(),
    ensures
        match token {
            Some(t) => spec_jwt_encode(header@, payload@, secret@) == Some(t@),
            None => spec_jwt_encode(header@, payload@, secret@) is None,
        },
{
    let header: serde_json::Value = serde_json::from_str(header).ok()?;
    let payload: serde_json::Value = serde_json::from_str(payload).ok()?;
    frank_jwt::encode(header, secret, &payload, frank_jwt::Algorithm::HS256).ok()
}

/// Checks `token` with `frank_jwt::decode` (HS256, key: the secret's bytes,
/// no expiry check: `ValidationOptions::dangerous`) and gives its payload:
/// an object's members or an array's elements, each written back to text by
/// serde_json, or `Other` for another JSON value. Claimed:
/// - the result is `spec_jwt_decode(token@, secret@)`, a function of the two
///   texts;
/// - a token that is not three parts separated by `.` is refused (`decode`
///   splits it on `.` and wants three segments);
/// - a token is accepted only when its third segment is the URL-safe base64
///   of the HMAC-SHA256 of the first two under the secret (`decode`
///   recomputes that HMAC and compares it with the decoded third segment,
///   and base64's `URL_SAFE_NO_PAD` decodes only canonical unpadded text);
/// - a token that `jwt_encode_hs256` made from the header `{}` and the claims
///   text of a user, under the same secret, gives back the object with the
///   members `id` (the decimal text of the id) and `name` (the name as a JSON
///   string), in that order. This rests on frank_jwt's source (`decode`
///   recomputes the same HMAC over the same signing input and parses the
///   payload that `encode` wrote) and on serde_json (its map iterates keys in
///   sorted order, and it writes integers in decimal and strings with the
///   escapes of `spec_json_string`).
/// The HMAC itself is not stated.
#[verifier::external_body]
fn jwt_decode_hs256(token: &str, secret: &String) -> (payload: Option<Payload>)
    ensures
        match payload {
            Some(p) => spec_jwt_decode(token@, secret@) == Some(p@),
            None => spec_jwt_decode(token@, secret@) is None,
        },
        spec_dot_count(token@) != 2 ==> payload is None,
        payload is Some ==> exists|header: Seq<char>, body: Seq<char>|
            #![trigger spec_signing_input(header, body)]
            !header.contains('.') && !body.contains('.') && token@ == spec_signing_input(header, body)
                + seq!['.'] + spec_base64url(
                spec_hmac_sha256(encode_utf8(secret@), encode_utf8(spec_signing_input(header, body))),
            ),
        forall|id: i32, name: Seq<char>|
            #![trigger spec_claims(id, name)]
            spec_jwt_encode(empty_header(), spec_claims(id, name), secret@) == Some(token@) ==> (
            payload is Some && payload.unwrap()@ == spec_claims_payload(id, name)),
{
    let options = frank_jwt::ValidationOptions::dangerous();
    match frank_jwt::decode(token, secret, frank_jwt::Algorithm::HS256, &options) {
        Ok((_, serde_json::Value::Object(map))) => {
            Some(Payload::Object(map.into_iter().map(|(key, value)| (key, value.to_string())).collect()))
        },
        Ok((_, serde_json::Value::Array(items))) => {
            Some(Payload::Array(items.into_iter().map(|value| value.to_string()).collect()))
        },
        Ok(_) => Some(Payload::Other),
        Err(_) => None,
    }
}

/// The header text of a token before frank_jwt adds `alg` and `typ`: `{}`.
pub open spec fn empty_header() -> Seq<char> {
    seq!['{', '}']
}

impl UserToken {
    /// The claims text of the token.
    pub open spec fn spec_claims(&self) -> Seq<char> {
        spec_claims(self.id, self.name@)
    }

    /// The signed token under `secret`, when signing succeeds.
    pub open spec fn spec_jwt(&self, secret: Seq<char>) -> Option<Seq<char>> {
        spec_jwt_encode(empty_header(), self.spec_claims(), secret)
    }

    /// Signs the claims of the token under `secret`, once.
    fn sign(&self, secret: &String) -> (jwt: Option<String>)
        ensures
            match jwt {
                Some(t) => self.spec_jwt(secret@) == Some(t@),
                None => self.spec_jwt(secret@) is None,
            },
    {
        let claims = claims_text(self.id, self.name.as_str());
        let header: &str = "{}";
        proof {
            reveal_strlit("{}");
        }
        assert(header@ =~= empty_header());
        jwt_encode_hs256(header, claims.as_str(), secret)
    }

    /// Signs the token under `secret`; signing must succeed.
    pub fn to_jwt(self, secret: &String) -> (jwt: String)
        requires
            self.spec_jwt(secret@) is Some,
        ensures
            self.spec_jwt(secret@) == Some(jwt@),
    {
        match self.sign(secret) {
            Some(t) => t,
            None => {
                assert(false);
                String::new()
            },
        }
    }

    /// Signs the token under `secret`: `None` when signing fails.
    pub fn try_to_jwt(self, secret: &String) -> (jwt: Option<String>)
        ensures
            match jwt {
                Some(t) => self.spec_jwt(secret@) == Some(t@),
                None => self.spec_jwt(secret@) is None,
            },
    {
        match self.sign(secret) {
            Some(_) => Some(self.to_jwt(secret)),
            None => None,
        }
    }

    /// The user token that `jwt` carries, when its signature is valid under
    /// `secret` and its payload names a user: an object whose `id` is an
    /// `i32` and whose `name` is a string (other members are ignored), or an
    /// array of those two. A text that is not three `.`-separated parts is
    /// refused, a token is accepted only with the HMAC of `secret` as its
    /// signature, and a token that `to_jwt` signed under the same secret is
    /// read back as the token it was made from.
    pub fn from_jwt(jwt: String, secret: &String) -> (t: Option<UserToken>)
        ensures
            t matches Some(tok) ==> spec_names_user(spec_jwt_decode(jwt@, secret@), tok.id, tok.name@),
            forall|id: i32, name: Seq<char>|
                #![trigger spec_names_user(spec_jwt_decode(jwt@, secret@), id, name)]
                spec_names_user(spec_jwt_decode(jwt@, secret@), id, name) ==> (t matches Some(tok)
                    && tok.id == id && tok.name@ == name),
            spec_dot_count(jwt@) != 2 ==> t is None,
            t is Some ==> spec_signed_by(jwt@, secret@),
            forall|id: i32, name: Seq<char>|
                #![trigger spec_claims(id, name)]
                spec_jwt_encode(empty_header(), spec_claims(id, name), secret@) == Some(jwt@) ==> (
                t matches Some(tok) && tok.id == id && tok.name@ == name),
    {
        match jwt_decode_hs256(jwt.as_str(), secret) {
            Some(payload) => match claims_of_payload(&payload) {
                Some((id, name)) => Some(UserToken { id, name }),
                None => None,
            },
            None => None,
        }
    }
}

} // verus!
