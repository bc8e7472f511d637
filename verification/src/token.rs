//! Signed tokens: `payload.signature`, both parts base64url without padding,
//! the signature an HMAC-SHA256 of the encoded payload. The claims are JSON;
//! turning them into bytes and back is left to the caller.
use vstd::prelude::*;
use vstd::utf8::encode_utf8;
use crate::ids::{ClientId, DeviceId, ServiceId, SessionId, UserId};
use crate::text::split_once_spec;
use hmac::Mac;

verus! {

/// The claims of a relay token: who may use which service, with which
/// limits, until when.
#[derive(Clone, Debug, PartialEq, Eq)]
pub struct RelayTokenClaims {
    pub session_id: SessionId,
    pub user_id: UserId,
    pub client_id: ClientId,
    pub device_id: DeviceId,
    pub service_id: ServiceId,
    pub max_bps: u64,
    pub max_streams: u32,
    pub max_duration_sec: u64,
    pub traffic_quota_bytes: u64,
    pub exp: u64,
}

/// The claims of a session access token.
#[derive(Clone, Debug, PartialEq, Eq)]
pub struct AccessTokenClaims {
    pub session_id: SessionId,
    pub subject: String,
    pub exp: u64,
}

#[derive(Clone, Copy, Debug, PartialEq, Eq, Structural)]
pub enum ControlRole {
    User,
    Admin,
    Relay,
    Agent,
}

/// The claims of a Control API token.
#[derive(Clone, Debug, PartialEq, Eq)]
pub struct ControlTokenClaims {
    pub user_id: UserId,
    pub subject: String,
    pub role: ControlRole,
    pub exp: u64,
    pub relay_token_version: Option<u64>,
    pub credential_id: Option<String>,
    pub server_credential_version: Option<u64>,
}

#[derive(Debug)]
pub enum TokenError {
    InvalidFormat,
    InvalidKey,
    InvalidSignature,
    Expired,
    Json(serde_json::Error),
}

/// HMAC-SHA256 of `msg` under `key`.
pub uninterp spec fn hmac_sha256(key: Seq<u8>, msg: Seq<u8>) -> Seq<u8>;

/// A character of the base64url alphabet: letters, digits, `-` and `_`.
pub open spec fn is_base64_url_char(c: char) -> bool {
    ('A' <= c && c <= 'Z') || ('a' <= c && c <= 'z') || ('0' <= c && c <= '9') || c == '-' || c
        == '_'
}

/// The character that base64url writes for the six bits `v`: `A`..`Z`,
/// `a`..`z`, `0`..`9`, `-`, `_`.
pub open spec fn base64_url_char(v: int) -> char {
    if v < 26 {
        (v + 65) as char
    } else if v < 52 {
        (v + 71) as char
    } else if v < 62 {
        (v - 4) as char
    } else if v == 62 {
        '-'
    } else {
        '_'
    }
}

/// The six bits that a base64url character stands for.
pub open spec fn base64_url_value(c: char) -> int {
    if 'A' <= c && c <= 'Z' {
        c as int - 65
    } else if 'a' <= c && c <= 'z' {
        c as int - 71
    } else if '0' <= c && c <= '9' {
        c as int + 4
    } else if c == '-' {
        62
    } else {
        63
    }
}

/// Each six bits have their own character of the alphabet.
pub proof fn lemma_base64_url_char(v: int)
    requires
        0 <= v < 64,
    ensures
        is_base64_url_char(base64_url_char(v)),
        base64_url_value(base64_url_char(v)) == v,
{
}

/// base64url without padding (RFC 4648, section 5), as
/// `base64::engine::general_purpose::URL_SAFE_NO_PAD` encodes: every three
/// bytes give four characters of six bits each, the first bits first; one or
/// two bytes left at the end give two or three characters, whose unused low
/// bits are zero.
pub open spec fn base64_url_nopad(b: Seq<u8>) -> Seq<char>
    decreases b.len(),
{
    if b.len() == 0 {
        Seq::empty()
    } else {
        let x = b[0] as int;
        if b.len() == 1 {
            seq![base64_url_char(x / 4), base64_url_char((x % 4) * 16)]
        } else {
            let y = b[1] as int;
            if b.len() == 2 {
                seq![
                    base64_url_char(x / 4),
                    base64_url_char((x % 4) * 16 + y / 16),
                    base64_url_char((y % 16) * 4),
                ]
            } else {
                let z = b[2] as int;
                seq![
                    base64_url_char(x / 4),
                    base64_url_char((x % 4) * 16 + y / 16),
                    base64_url_char((y % 16) * 4 + z / 64),
                    base64_url_char(z % 64),
                ] + base64_url_nopad(b.skip(3))
            }
        }
    }
}

/// The length of the base64url text of `n` bytes, without padding.
pub open spec fn base64_url_len(n: int) -> int {
    (n / 3) * 4 + if n % 3 == 0 {
        0int
    } else if n % 3 == 1 {
        2int
    } else {
        3int
    }
}

/// The text has the length that the number of bytes gives.
pub proof fn lemma_base64_url_len(b: Seq<u8>)
    ensures
        base64_url_nopad(b).len() == base64_url_len(b.len() as int),
    decreases b.len(),
{
    if b.len() >= 3 {
        lemma_base64_url_len(b.skip(3));
    }
}

/// The text is made of the base64url alphabet only.
pub proof fn lemma_base64_url_alphabet(b: Seq<u8>)
    ensures
        forall|i: int|
            0 <= i < base64_url_nopad(b).len() ==> is_base64_url_char(
                #[trigger] base64_url_nopad(b)[i],
            ),
    decreases b.len(),
{
    if b.len() > 0 {
        let x = b[0] as int;
        lemma_base64_url_char(x / 4);
        lemma_base64_url_char((x % 4) * 16);
        if b.len() >= 2 {
            let y = b[1] as int;
            lemma_base64_url_char((x % 4) * 16 + y / 16);
            lemma_base64_url_char((y % 16) * 4);
            if b.len() >= 3 {
                let z = b[2] as int;
                lemma_base64_url_char((y % 16) * 4 + z / 64);
                lemma_base64_url_char(z % 64);
                lemma_base64_url_alphabet(b.skip(3));
                let e = base64_url_nopad(b);
                let rest = base64_url_nopad(b.skip(3));
                assert forall|i: int| 4 <= i < e.len() implies is_base64_url_char(#[trigger] e[i]) by {
                    assert(e[i] == rest[i - 4]);
                }
            }
        }
    }
}

/// No two byte strings have the same base64url text.
pub proof fn lemma_base64_url_injective(a: Seq<u8>, b: Seq<u8>)
    requires
        base64_url_nopad(a) == base64_url_nopad(b),
    ensures
        a == b,
    decreases a.len(),
{
    lemma_base64_url_len(a);
    lemma_base64_url_len(b);
    let e = base64_url_nopad(a);
    assert(a.len() == b.len()) by {
        let n = a.len() as int;
        let m = b.len() as int;
        assert(base64_url_len(n) == base64_url_len(m));
    }
    if a.len() > 0 {
        let x = a[0] as int;
        let x2 = b[0] as int;
        assert(e[0] == base64_url_nopad(b)[0]);
        lemma_base64_url_char(x / 4);
        lemma_base64_url_char(x2 / 4);
        if a.len() == 1 {
            lemma_base64_url_char((x % 4) * 16);
            lemma_base64_url_char((x2 % 4) * 16);
            assert(e[1] == base64_url_nopad(b)[1]);
            assert(x == x2);
            assert(a =~= b);
        } else {
            let y = a[1] as int;
            let y2 = b[1] as int;
            lemma_base64_url_char((x % 4) * 16 + y / 16);
            lemma_base64_url_char((x2 % 4) * 16 + y2 / 16);
            assert(e[1] == base64_url_nopad(b)[1]);
            assert(e[2] == base64_url_nopad(b)[2]);
            if a.len() == 2 {
                lemma_base64_url_char((y % 16) * 4);
                lemma_base64_url_char((y2 % 16) * 4);
                assert(x == x2);
                assert(y == y2);
                assert(a =~= b);
            } else {
                let z = a[2] as int;
                let z2 = b[2] as int;
                lemma_base64_url_char((y % 16) * 4 + z / 64);
                lemma_base64_url_char((y2 % 16) * 4 + z2 / 64);
                lemma_base64_url_char(z % 64);
                lemma_base64_url_char(z2 % 64);
                let f = base64_url_nopad(b);
                assert(e[0] == base64_url_char(x / 4) && f[0] == base64_url_char(x2 / 4));
                assert(e[1] == base64_url_char((x % 4) * 16 + y / 16));
                assert(f[1] == base64_url_char((x2 % 4) * 16 + y2 / 16));
                assert(e[2] == base64_url_char((y % 16) * 4 + z / 64));
                assert(f[2] == base64_url_char((y2 % 16) * 4 + z2 / 64));
                assert(e[3] == base64_url_char(z % 64) && f[3] == base64_url_char(z2 % 64));
                assert(e[3] == f[3]);
                assert(x == x2);
                assert(y == y2);
                assert(z == z2);
                assert(base64_url_nopad(a.skip(3)) =~= e.skip(4));
                assert(base64_url_nopad(b.skip(3)) =~= base64_url_nopad(b).skip(4));
                lemma_base64_url_injective(a.skip(3), b.skip(3));
                assert(a =~= a.take(3) + a.skip(3));
                assert(b =~= b.take(3) + b.skip(3));
                assert(a.take(3) =~= b.take(3));
            }
        }
    }
}

/// `URL_SAFE_NO_PAD.encode`: the base64url text of the bytes, without
/// padding. It panics only when the length of the text overflows `usize`,
/// which the bound on the input rules out.
#[verifier::external_body]
fn base64_encode(bytes: &[u8]) -> (s: String)
    requires
        bytes@.len() <= usize::MAX / 2,
    ensures
        s@ == base64_url_nopad(bytes@),
{
    base64::Engine::encode(&base64::engine::general_purpose::URL_SAFE_NO_PAD, bytes)
}

/// `URL_SAFE_NO_PAD.decode`. This engine refuses padding and nonzero
/// trailing bits, so it accepts exactly the texts that its encoder writes,
/// and gives back bytes whose text is the one given.
#[verifier::external_body]
fn base64_decode(s: &str) -> (r: Option<Vec<u8>>)
    ensures
        match r {
            Some(b) => base64_url_nopad(b@) == s@,
            None => forall|b: Seq<u8>| #[trigger] base64_url_nopad(b) != s@,
        },
{
    match base64::Engine::decode(&base64::engine::general_purpose::URL_SAFE_NO_PAD, s) {
        Ok(b) => Some(b),
        Err(_) => None,
    }
}

/// HMAC-SHA256 with hmac's `Hmac<Sha256>`: `new_from_slice`, `update`,
/// `finalize`. `new_from_slice` of an HMAC takes keys of any length, so a
/// tag always comes back; it is named by `hmac_sha256` and is 32 bytes long.
#[verifier::external_body]
fn hmac_sha256_tag(key: &[u8], msg: &[u8]) -> (r: Option<Vec<u8>>)
    ensures
        r is Some,
        match r {
            Some(t) => t@ == hmac_sha256(key@, msg@) && t@.len() == 32,
            None => true,
        },
{
    match hmac::Hmac::<sha2::Sha256>::new_from_slice(key) {
        Ok(mut mac) => {
            mac.update(msg);
            Some(mac.finalize().into_bytes().to_vec())
        },
        Err(_) => None,
    }
}

/// hmac's `verify_slice` after `new_from_slice` and `update`: the tag is
/// accepted exactly when it equals the whole HMAC-SHA256 of `msg` under
/// `key` (compared in constant time).
#[verifier::external_body]
fn hmac_sha256_verify(key: &[u8], msg: &[u8], tag: &[u8]) -> (r: Option<bool>)
    ensures
        r == Some(tag@ == hmac_sha256(key@, msg@)),
{
    match hmac::Hmac::<sha2::Sha256>::new_from_slice(key) {
        Ok(mut mac) => {
            mac.update(msg);
            Some(mac.verify_slice(tag).is_ok())
        },
        Err(_) => None,
    }
}

/// The secret that tokens are signed with.
#[derive(Clone, Debug)]
pub struct TokenKey(Vec<u8>);

impl TokenKey {
    pub closed spec fn bytes(&self) -> Seq<u8> {
        self.0@
    }

    pub fn new(secret: &[u8]) -> (r: Self)
        ensures
            r.bytes() == secret@,
    {
        let mut v: Vec<u8> = Vec::new();
        let mut i: usize = 0;
        while i < secret.len()
            invariant
                i <= secret@.len(),
                v@ == secret@.take(i as int),
            decreases secret@.len() - i,
        {
            v.push(secret[i]);
            i = i + 1;
            assert(v@ =~= secret@.take(i as int));
        }
        assert(secret@.take(i as int) =~= secret@);
        TokenKey(v)
    }
}

/// The token that signs `payload` under `key`.
pub open spec fn signed_token(key: Seq<u8>, payload: Seq<u8>) -> Seq<char> {
    let encoded = base64_url_nopad(payload);
    encoded + seq!['.'] + base64_url_nopad(hmac_sha256(key, encode_utf8(encoded)))
}

/// What checking a token under `key` gives: its payload, or why it is
/// refused.
pub open spec fn token_payload(key: Seq<u8>, t: Seq<char>) -> Result<Seq<u8>, TokenError> {
    match split_once_spec(t, '.') {
        None => Err(TokenError::InvalidFormat),
        Some((p, s)) => if p.len() == 0 || s.len() == 0 {
            Err(TokenError::InvalidFormat)
        } else if !(exists|b: Seq<u8>| #[trigger] base64_url_nopad(b) == s) {
            Err(TokenError::InvalidFormat)
        } else if (choose|b: Seq<u8>| #[trigger] base64_url_nopad(b) == s) != hmac_sha256(
            key,
            encode_utf8(p),
        ) {
            Err(TokenError::InvalidSignature)
        } else if !(exists|b: Seq<u8>| #[trigger] base64_url_nopad(b) == p) {
            Err(TokenError::InvalidFormat)
        } else {
            Ok(choose|b: Seq<u8>| #[trigger] base64_url_nopad(b) == p)
        },
    }
}

/// The text before the first `.` of `p + "." + s`, when `p` holds no `.`, is
/// `p`, and the text after it is `s`.
proof fn lemma_split_at_dot(p: Seq<char>, s: Seq<char>)
    requires
        forall|j: int| 0 <= j < p.len() ==> p[j] != '.',
    ensures
        split_once_spec(p + seq!['.'] + s, '.') == Some((p, s)),
{
    let t = p + seq!['.'] + s;
    assert(t[p.len() as int] == '.');
    assert(t.contains('.'));
    assert forall|j: int| 0 <= j < p.len() implies t[j] != '.' by {
        assert(t[j] == p[j]);
    }
    let i = choose|i: int| 0 <= i < t.len() && t[i] == '.' && forall|j: int| 0 <= j < i ==> t[j] != '.';
    crate::text::lemma_first_index_unique(t, '.', i, p.len() as int);
    assert(t.subrange(0, p.len() as int) =~= p);
    assert(t.subrange(p.len() as int + 1, t.len() as int) =~= s);
}

/// A token `p.s`, whose payload text `p` encodes the bytes `b`, checks back
/// to `b` exactly when `s` encodes the HMAC-SHA256 under the key of the UTF-8
/// bytes of `p` itself (the text before the dot, without the dot); any other
/// signature is refused as invalid.
pub proof fn law_signature_covers_exactly_the_payload_text(key: Seq<u8>, b: Seq<u8>, sig: Seq<u8>)
    requires
        b.len() > 0,
        sig.len() > 0,
    ensures
        sig == hmac_sha256(key, encode_utf8(base64_url_nopad(b))) ==> token_payload(
            key,
            base64_url_nopad(b) + seq!['.'] + base64_url_nopad(sig),
        ) == Ok::<Seq<u8>, TokenError>(b),
        sig != hmac_sha256(key, encode_utf8(base64_url_nopad(b))) ==> token_payload(
            key,
            base64_url_nopad(b) + seq!['.'] + base64_url_nopad(sig),
        ) == Err::<Seq<u8>, TokenError>(TokenError::InvalidSignature),
{
    let p = base64_url_nopad(b);
    let s = base64_url_nopad(sig);
    lemma_base64_url_alphabet(b);
    lemma_base64_url_len(b);
    lemma_base64_url_len(sig);
    assert forall|j: int| 0 <= j < p.len() implies p[j] != '.' by {
        assert(is_base64_url_char(p[j]));
    }
    lemma_split_at_dot(p, s);
    let cs = choose|x: Seq<u8>| #[trigger] base64_url_nopad(x) == s;
    lemma_base64_url_injective(cs, sig);
    let cp = choose|x: Seq<u8>| #[trigger] base64_url_nopad(x) == p;
    lemma_base64_url_injective(cp, b);
}

/// Refuses claims whose expiry is not after `now`.
pub fn check_expiry(exp: u64, now_epoch_sec: u64) -> (r: Result<(), TokenError>)
    ensures
        r is Ok <==> now_epoch_sec < exp,
        r is Err ==> r == Err::<(), TokenError>(TokenError::Expired),
{
    if exp <= now_epoch_sec {
        Err(TokenError::Expired)
    } else {
        Ok(())
    }
}

/// Relay claims that are still valid at `now`.
pub fn accept_relay_claims(claims: RelayTokenClaims, now_epoch_sec: u64) -> (r: Result<
    RelayTokenClaims,
    TokenError,
>)
    ensures
        now_epoch_sec < claims.exp ==> r == Ok::<RelayTokenClaims, TokenError>(claims),
        claims.exp <= now_epoch_sec ==> r == Err::<RelayTokenClaims, TokenError>(TokenError::Expired),
{
    check_expiry(claims.exp, now_epoch_sec)?;
    Ok(claims)
}

/// Control claims that are still valid at `now`.
pub fn accept_control_claims(claims: ControlTokenClaims, now_epoch_sec: u64) -> (r: Result<
    ControlTokenClaims,
    TokenError,
>)
    ensures
        now_epoch_sec < claims.exp ==> r == Ok::<ControlTokenClaims, TokenError>(claims),
        claims.exp <= now_epoch_sec ==> r == Err::<ControlTokenClaims, TokenError>(TokenError::Expired),
{
    check_expiry(claims.exp, now_epoch_sec)?;
    Ok(claims)
}

/// Signs and checks tokens with one key.
#[derive(Clone, Debug)]
pub struct TokenSigner {
    key: TokenKey,
}

impl TokenSigner {
    pub closed spec fn key_bytes(&self) -> Seq<u8> {
        self.key.bytes()
    }

    pub fn new(key: TokenKey) -> (r: Self)
        ensures
            r.key_bytes() == key.bytes(),
    {
        TokenSigner { key }
    }

    /// The HMAC-SHA256 of `payload` under the key.
    pub fn signature(&self, payload: &[u8]) -> (r: Result<Vec<u8>, TokenError>)
        ensures
            r matches Ok(t) && t@ == hmac_sha256(self.key_bytes(), payload@) && t@.len() == 32,
    {
        match hmac_sha256_tag(self.key.0.as_slice(), payload) {
            Some(t) => Ok(t),
            None => Err(TokenError::InvalidKey),
        }
    }

    /// Signs the JSON bytes of some claims. The token checks back to the same
    /// bytes under the same key.
    pub fn sign_payload(&self, payload: &[u8]) -> (r: Result<String, TokenError>)
        requires
            payload@.len() <= usize::MAX / 2,
        ensures
            r matches Ok(t) && t@ == signed_token(self.key_bytes(), payload@),
            r matches Ok(t) && t@ == base64_url_nopad(payload@) + seq!['.'] + base64_url_nopad(
                hmac_sha256(self.key_bytes(), encode_utf8(base64_url_nopad(payload@))),
            ),
            payload@.len() > 0 ==> (r matches Ok(t) && token_payload(self.key_bytes(), t@) == Ok::<
                Seq<u8>,
                TokenError,
            >(payload@)),
    {
        let encoded_payload = base64_encode(payload);
        let signature = self.signature(encoded_payload.as_str().as_bytes())?;
        let encoded_signature = base64_encode(signature.as_slice());
        let mut token = encoded_payload.clone();
        crate::text::push_char(&mut token, '.');
        crate::text::push_str(&mut token, encoded_signature.as_str());
        proof {
            let p = encoded_payload@;
            let s = encoded_signature@;
            lemma_base64_url_alphabet(payload@);
            lemma_base64_url_len(payload@);
            lemma_base64_url_len(signature@);
            assert(token@ =~= p + seq!['.'] + s);
            if payload@.len() > 0 {
                let t = token@;
                assert(t[p.len() as int] == '.');
                assert(t.contains('.'));
                assert forall|j: int| 0 <= j < p.len() implies t[j] != '.' by {
                    assert(t[j] == p[j]);
                    assert(is_base64_url_char(p[j]));
                }
                let i = choose|i: int| 0 <= i < t.len() && t[i] == '.' && forall|j: int| 0 <= j < i ==> t[j] != '.';
                crate::text::lemma_first_index_unique(t, '.', i, p.len() as int);
                assert(t.subrange(0, p.len() as int) =~= p);
                assert(t.subrange(p.len() as int + 1, t.len() as int) =~= s);
                assert(split_once_spec(t, '.') == Some((p, s)));
                assert(s.len() > 0);
                assert(p.len() > 0);
                assert(base64_url_nopad(signature@) == s);
                let cs = choose|b: Seq<u8>| #[trigger] base64_url_nopad(b) == s;
                lemma_base64_url_injective(cs, signature@);
                assert(signature@ == hmac_sha256(self.key_bytes(), encode_utf8(p)));
                assert(base64_url_nopad(payload@) == p);
                let cp = choose|b: Seq<u8>| #[trigger] base64_url_nopad(b) == p;
                lemma_base64_url_injective(cp, payload@);
            }
        }
        Ok(token)
    }

    /// Checks a token and gives back the JSON bytes of its claims.
    pub fn verify_payload(&self, token: &str) -> (r: Result<Vec<u8>, TokenError>)
        ensures
            match token_payload(self.key_bytes(), token@) {
                Ok(b) => r matches Ok(v) && v@ == b,
                Err(e) => r == Err::<Vec<u8>, TokenError>(e),
            },
    {
        let v = crate::text::chars_of(token);
        let i = match crate::text::split_once_at(&v, '.') {
            Some(i) => i,
            None => {
                return Err(TokenError::InvalidFormat);
            },
        };
        if i == 0 || i == v.len() - 1 {
            return Err(TokenError::InvalidFormat);
        }
        let encoded_payload = crate::text::string_of(&v, 0, i);
        let encoded_signature = crate::text::string_of(&v, i + 1, v.len());
        let signature = match base64_decode(encoded_signature.as_str()) {
            Some(s) => s,
            None => {
                return Err(TokenError::InvalidFormat);
            },
        };
        proof {
            assert(v@.subrange(0, i as int) == encoded_payload@);
            let c = choose|b: Seq<u8>| #[trigger] base64_url_nopad(b) == encoded_signature@;
            lemma_base64_url_injective(c, signature@);
        }
        let valid = match hmac_sha256_verify(
            self.key.0.as_slice(),
            encoded_payload.as_str().as_bytes(),
            signature.as_slice(),
        ) {
            Some(ok) => ok,
            None => {
                return Err(TokenError::InvalidKey);
            },
        };
        if !valid {
            return Err(TokenError::InvalidSignature);
        }
        match base64_decode(encoded_payload.as_str()) {
            Some(p) => {
                proof {
                    let c = choose|b: Seq<u8>| #[trigger] base64_url_nopad(b) == encoded_payload@;
                    lemma_base64_url_injective(c, p@);
                }
                Ok(p)
            },
            None => Err(TokenError::InvalidFormat),
        }
    }
}

} // verus!
