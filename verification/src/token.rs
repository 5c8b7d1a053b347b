//! Issuing and checking signed, time-bounded identity tokens. A token
//! is `header.payload.signature`: two base64url segments built by the
//! library and an HMAC-SHA256 signature over them, computed by the
//! `jsonwebtoken` crate. Checking splits the text, compares the
//! recomputed signature, reads the payload back, and rejects anything
//! expired — uniformly, so a caller cannot tell which check failed.

use vstd::prelude::*;
use vstd::string::StrSliceExecFns;
use vstd::string::StringSliceAdditionalSpecFns;

use crate::base64url::{
    b64_decode, b64_encode, lemma_b64_encode_bytes, lemma_b64_roundtrip, spec_b64_decode,
    spec_b64_encode,
};
use crate::claims::{claims_json, lemma_claims_roundtrip, parse_claims, spec_claims_json, Claims};
use crate::user::UserRole;

verus! {

#[derive(Clone, Copy, Debug, PartialEq, Eq, Structural)]
pub enum JwtError {
    TokenCreation,
    TokenVerification,
}

/// The base64url text of the HMAC-SHA256 signature that the signing
/// crate computes for a key and a message; a fixed function of the two.
pub uninterp spec fn hmac_b64_of(secret: Seq<u8>, msg: Seq<u8>) -> Seq<u8>;

/// Relies on jsonwebtoken::crypto::sign with Algorithm::HS256 and an
/// EncodingKey from these secret bytes: it returns the base64url text
/// of the HMAC-SHA256 signature, a deterministic function of key and
/// message, never fails for an HMAC algorithm, and its output is
/// ASCII (the base64url alphabet).
#[verifier::external_body]
fn sign_hs256(secret: &Vec<u8>, message: &Vec<u8>) -> (r: Vec<u8>)
    ensures
        r@ == hmac_b64_of(secret@, message@),
        forall|i: int| 0 <= i < r@.len() ==> r@[i] < 128,
{
    let key = jsonwebtoken::EncodingKey::from_secret(secret.as_slice());
    let sig = jsonwebtoken::crypto::sign(message.as_slice(), &key, jsonwebtoken::Algorithm::HS256)
        .unwrap();
    sig.into_bytes()
}

/// Relies on chrono::Utc::now: the current unix time in seconds;
/// nothing is promised of the value.
#[verifier::external_body]
fn now_unix_seconds() -> i64 {
    chrono::Utc::now().timestamp()
}

/// Relies on String::from_utf8: ASCII bytes decode to exactly those
/// characters; with every byte below 128 the call cannot fail.
#[verifier::external_body]
fn ascii_string(bytes: Vec<u8>) -> (r: String)
    requires
        forall|i: int| 0 <= i < bytes@.len() ==> bytes@[i] < 128,
    ensures
        r@.len() == bytes@.len(),
        forall|i: int| 0 <= i < bytes@.len() ==> r@[i] == bytes@[i] as char,
{
    String::from_utf8(bytes).unwrap()
}

pub open spec fn ascii_chars(b: Seq<u8>) -> Seq<char> {
    Seq::new(b.len(), |i: int| b[i] as char)
}

/// The fixed token header `{"typ":"JWT","alg":"HS256"}`.
pub open spec fn spec_header_json() -> Seq<u8> {
    seq![
        123u8, 34, 116, 121, 112, 34, 58, 34, 74, 87, 84, 34, 44, 34, 97, 108, 103, 34, 58, 34,
        72, 83, 50, 53, 54, 34, 125,
    ]
}

fn header_json_vec() -> (v: Vec<u8>)
    ensures
        v@ == spec_header_json(),
{
    let mut v: Vec<u8> = Vec::new();
    v.push(123);
    v.push(34);
    v.push(116);
    v.push(121);
    v.push(112);
    v.push(34);
    v.push(58);
    v.push(34);
    v.push(74);
    v.push(87);
    v.push(84);
    v.push(34);
    v.push(44);
    v.push(34);
    v.push(97);
    v.push(108);
    v.push(103);
    v.push(34);
    v.push(58);
    v.push(34);
    v.push(72);
    v.push(83);
    v.push(50);
    v.push(53);
    v.push(54);
    v.push(34);
    v.push(125);
    proof {
        assert(v@ =~= spec_header_json());
    }
    v
}

/// The text that is signed: encoded header, a dot, encoded payload.
pub open spec fn spec_signing_input(c: Claims) -> Seq<u8> {
    spec_b64_encode(spec_header_json()) + seq![46u8] + spec_b64_encode(spec_claims_json(c))
}

/// The whole token: signing input, a dot, the signature text.
pub open spec fn spec_token(secret: Seq<u8>, c: Claims) -> Seq<u8> {
    spec_signing_input(c) + seq![46u8] + hmac_b64_of(secret, spec_signing_input(c))
}

/// The claims issued to a user at a moment: good for 24 hours.
pub open spec fn spec_claims_at(user_id: i32, role: UserRole, now: u64) -> Claims {
    Claims { sub: user_id, role, exp: (now + 86400) as u64, iat: now }
}

/// The first position at or after `i` holding byte `b`, or -1.
pub open spec fn find_byte(s: Seq<u8>, b: u8, i: int) -> int
    decreases s.len() - i,
{
    if !(0 <= i < s.len()) {
        -1
    } else if s[i] == b {
        i
    } else {
        find_byte(s, b, i + 1)
    }
}

/// What checking a token means: split at the first two dots, demand
/// the fixed header, demand the recomputed signature, read the payload
/// back, and demand an expiry after `now`.
pub open spec fn spec_verify_token(secret: Seq<u8>, t: Seq<u8>, now: u64) -> Option<Claims> {
    let d1 = find_byte(t, 46, 0);
    if d1 < 0 {
        None
    } else {
        let d2 = find_byte(t, 46, d1 + 1);
        if d2 < 0 {
            None
        } else if t.subrange(0, d1) != spec_b64_encode(spec_header_json()) {
            None
        } else if t.subrange(d2 + 1, t.len() as int) != hmac_b64_of(secret, t.subrange(0, d2)) {
            None
        } else {
            match spec_b64_decode(t.subrange(d1 + 1, d2)) {
                None => None,
                Some(payload) => match crate::claims::spec_parse_claims(payload) {
                    None => None,
                    Some(c) => if c.exp > now {
                        Some(c)
                    } else {
                        None
                    },
                },
            }
        }
    }
}

/// Where a search really ends, the searched-for byte stands — or the
/// string is exhausted.
pub proof fn lemma_find_byte(s: Seq<u8>, b: u8, i: int, j: int)
    requires
        0 <= i <= j <= s.len(),
        forall|k: int| i <= k < j ==> s[k] != b,
        j == s.len() || s[j] == b,
    ensures
        find_byte(s, b, i) == if j == s.len() {
            -1
        } else {
            j
        },
    decreases j - i,
{
    if i < j {
        lemma_find_byte(s, b, i + 1, j);
    } else if j == s.len() {
        lemma_find_byte_none(s, b, i);
    }
}

proof fn lemma_find_byte_none(s: Seq<u8>, b: u8, i: int)
    requires
        forall|k: int| i <= k < s.len() ==> s[k] != b,
    ensures
        find_byte(s, b, i) == -1,
    decreases s.len() - i,
{
    if 0 <= i < s.len() {
        lemma_find_byte_none(s, b, i + 1);
    }
}

fn find_dot(p: &Vec<u8>, from: usize) -> (r: Option<usize>)
    requires
        from <= p@.len(),
    ensures
        match r {
            Some(j) => find_byte(p@, 46, from as int) == j as int && from <= j < p@.len(),
            None => find_byte(p@, 46, from as int) == -1,
        },
{
    let n = p.len();
    let mut i = from;
    while i < n
        invariant
            n == p@.len(),
            from <= i <= n,
            forall|k: int| from <= k < i ==> p@[k] != 46,
        decreases n - i,
    {
        if p[i] == 46 {
            proof {
                lemma_find_byte(p@, 46, from as int, i as int);
            }
            return Some(i);
        }
        i = i + 1;
    }
    proof {
        lemma_find_byte(p@, 46, from as int, n as int);
    }
    None
}

pub(crate) fn subvec(p: &Vec<u8>, i: usize, j: usize) -> (r: Vec<u8>)
    requires
        i <= j <= p@.len(),
    ensures
        r@ == p@.subrange(i as int, j as int),
{
    let mut r: Vec<u8> = Vec::new();
    let mut k = i;
    while k < j
        invariant
            i <= k <= j <= p@.len(),
            r@ == p@.subrange(i as int, k as int),
        decreases j - k,
    {
        r.push(p[k]);
        proof {
            assert(p@.subrange(i as int, k as int).push(p@[k as int]) =~= p@.subrange(
                i as int,
                k as int + 1,
            ));
        }
        k = k + 1;
    }
    proof {
        assert(p@.subrange(i as int, i as int) =~= Seq::<u8>::empty());
    }
    r
}

fn bytes_eq(a: &Vec<u8>, b: &Vec<u8>) -> (r: bool)
    ensures
        r == (a@ == b@),
{
    if a.len() != b.len() {
        return false;
    }
    let n = a.len();
    let mut i: usize = 0;
    while i < n
        invariant
            n == a@.len() == b@.len(),
            0 <= i <= n,
            forall|k: int| 0 <= k < i ==> a@[k] == b@[k],
        decreases n - i,
    {
        if a[i] != b[i] {
            return false;
        }
        i = i + 1;
    }
    proof {
        assert(a@ =~= b@);
    }
    true
}

/// Issues and checks tokens with one signing secret, fixed at
/// construction and only read afterwards.
pub struct JwtService {
    secret: Vec<u8>,
}

impl View for JwtService {
    type V = Seq<u8>;

    closed spec fn view(&self) -> Seq<u8> {
        self.secret@
    }
}

impl JwtService {
    /// The signing secret is handed in once, by the configuration
    /// layer that loaded it.
    pub fn new(secret: Vec<u8>) -> (r: JwtService)
        ensures
            r@ == secret@,
    {
        JwtService { secret }
    }

    /// Issue the token for `user_id` at moment `now`: claims good for
    /// 24 hours, signed with the service's secret.
    pub fn generate_token_at(&self, user_id: i32, role: UserRole, now: u64) -> (r: Result<
        String,
        JwtError,
    >)
        requires
            now + 86400 <= u64::MAX,
        ensures
            r matches Ok(t) && t@ == ascii_chars(
                spec_token(self@, spec_claims_at(user_id, role, now)),
            ),
    {
        let c = Claims { sub: user_id, role, exp: now + 86400, iat: now };
        let payload = claims_json(&c);
        let header = header_json_vec();
        let mut tb = b64_encode(&header);
        tb.push(46);
        let mut pb = b64_encode(&payload);
        tb.append(&mut pb);
        proof {
            assert(tb@ =~= spec_signing_input(c));
        }
        let mut sig = sign_hs256(&self.secret, &tb);
        let ghost si = tb@;
        tb.push(46);
        tb.append(&mut sig);
        proof {
            assert(tb@ =~= spec_token(self@, c));
            lemma_b64_encode_bytes(spec_header_json());
            lemma_b64_encode_bytes(spec_claims_json(c));
            assert forall|i: int| 0 <= i < tb@.len() implies tb@[i] < 128 by {
                let h = spec_b64_encode(spec_header_json());
                let p2 = spec_b64_encode(spec_claims_json(c));
                if i < h.len() {
                    assert(tb@[i] == h[i]);
                } else if i == h.len() {
                } else if i < si.len() {
                    assert(tb@[i] == p2[i - h.len() - 1]);
                } else if i == si.len() {
                } else {
                    assert(tb@[i] == hmac_b64_of(self@, si)[i - si.len() - 1]);
                }
            }
        }
        let t = ascii_string(tb);
        proof {
            assert(t@ =~= ascii_chars(spec_token(self@, c)));
        }
        Ok(t)
    }

    /// Issue a token for `user_id` at the present moment, with the
    /// plain `User` role.
    pub fn generate_token(&self, user_id: i32) -> (r: Result<String, JwtError>)
        ensures
            r matches Ok(t) ==> exists|now: u64|
                now + 86400 <= u64::MAX && t@ == ascii_chars(
                    #[trigger] spec_token(self@, spec_claims_at(user_id, UserRole::User, now)),
                ),
            r matches Err(e) ==> e == JwtError::TokenCreation,
    {
        let now_i = now_unix_seconds();
        if now_i < 0 {
            return Err(JwtError::TokenCreation);
        }
        let now = now_i as u64;
        match self.generate_token_at(user_id, UserRole::User, now) {
            Ok(t) => {
                proof {
                    assert(t@ == ascii_chars(
                        spec_token(self@, spec_claims_at(user_id, UserRole::User, now)),
                    ));
                }
                Ok(t)
            },
            Err(_) => Err(JwtError::TokenCreation),
        }
    }

    /// Check a token, given as bytes, against the secret and moment
    /// `now`; every failure is the one uniform verification error.
    pub fn verify_token_bytes_at(&self, token: &Vec<u8>, now: u64) -> (r: Result<Claims, JwtError>)
        ensures
            match r {
                Ok(c) => spec_verify_token(self@, token@, now) == Some(c),
                Err(e) => spec_verify_token(self@, token@, now) is None && e
                    == JwtError::TokenVerification,
            },
    {
        let n = token.len();
        let d1 = match find_dot(token, 0) {
            Some(j) => j,
            None => {
                return Err(JwtError::TokenVerification);
            },
        };
        let d2 = match find_dot(token, d1 + 1) {
            Some(j) => j,
            None => {
                return Err(JwtError::TokenVerification);
            },
        };
        let header = subvec(token, 0, d1);
        let expected_header = b64_encode(&header_json_vec());
        if !bytes_eq(&header, &expected_header) {
            return Err(JwtError::TokenVerification);
        }
        let signing_input = subvec(token, 0, d2);
        let expected_sig = sign_hs256(&self.secret, &signing_input);
        let sig = subvec(token, d2 + 1, n);
        if !bytes_eq(&sig, &expected_sig) {
            return Err(JwtError::TokenVerification);
        }
        let payload_b64 = subvec(token, d1 + 1, d2);
        let payload = match b64_decode(&payload_b64) {
            Some(p) => p,
            None => {
                return Err(JwtError::TokenVerification);
            },
        };
        let c = match parse_claims(&payload) {
            Some(c) => c,
            None => {
                return Err(JwtError::TokenVerification);
            },
        };
        if c.exp > now {
            Ok(c)
        } else {
            Err(JwtError::TokenVerification)
        }
    }

    /// Check a token given as text, against moment `now`.
    pub fn verify_token_at(&self, token: &str, now: u64) -> (r: Result<Claims, JwtError>)
        ensures
            match r {
                Ok(c) => spec_verify_token(self@, token.spec_bytes(), now) == Some(c),
                Err(e) => spec_verify_token(self@, token.spec_bytes(), now) is None && e
                    == JwtError::TokenVerification,
            },
    {
        let bytes = token.as_bytes_vec();
        self.verify_token_bytes_at(&bytes, now)
    }

    /// Check a token against the present moment.
    pub fn verify_token(&self, token: &str) -> (r: Result<Claims, JwtError>)
        ensures
            r matches Ok(c) ==> exists|now: u64|
                #[trigger] spec_verify_token(self@, token.spec_bytes(), now) == Some(c),
            r matches Err(e) ==> e == JwtError::TokenVerification,
    {
        let now_i = now_unix_seconds();
        let now: u64 = if now_i < 0 {
            0
        } else {
            now_i as u64
        };
        match self.verify_token_at(token, now) {
            Ok(c) => {
                proof {
                    assert(spec_verify_token(self@, token.spec_bytes(), now) == Some(c));
                }
                Ok(c)
            },
            Err(_) => Err(JwtError::TokenVerification),
        }
    }
}

/// Checking a freshly issued token: before the claims expire it yields
/// exactly the claims that were issued; at or past their expiry it
/// fails, signature notwithstanding.
pub proof fn lemma_verify_of_token(secret: Seq<u8>, c: Claims, now: u64)
    ensures
        spec_verify_token(secret, spec_token(secret, c), now) == if c.exp > now {
            Some(c)
        } else {
            None::<Claims>
        },
{
    let h = spec_b64_encode(spec_header_json());
    let b = spec_b64_encode(spec_claims_json(c));
    let si = spec_signing_input(c);
    let s = hmac_b64_of(secret, si);
    let t = spec_token(secret, c);
    lemma_b64_encode_bytes(spec_header_json());
    lemma_b64_encode_bytes(spec_claims_json(c));
    assert(si == h + seq![46u8] + b);
    assert(t == si + seq![46u8] + s);
    assert forall|k: int| 0 <= k < h.len() implies t[k] != 46 by {
        assert(t[k] == h[k]);
    }
    assert(t[h.len() as int] == 46);
    lemma_find_byte(t, 46, 0, h.len() as int);
    let d1 = h.len() as int;
    assert forall|k: int| d1 + 1 <= k < d1 + 1 + b.len() implies t[k] != 46 by {
        assert(t[k] == b[k - d1 - 1]);
    }
    assert(t[d1 + 1 + b.len()] == 46);
    lemma_find_byte(t, 46, d1 + 1, d1 + 1 + b.len());
    let d2 = d1 + 1 + b.len();
    assert(t.subrange(0, d1) =~= h);
    assert(t.subrange(0, d2) =~= si);
    assert(t.subrange(d2 + 1, t.len() as int) =~= s);
    assert(t.subrange(d1 + 1, d2) =~= b);
    lemma_b64_roundtrip(spec_claims_json(c));
    lemma_claims_roundtrip(c);
}

/// A freshly issued token, checked before its expiry, yields exactly
/// the claims that were issued — in particular the subject is the user
/// id it was issued to.
pub proof fn lemma_issued_token_names_user(
    secret: Seq<u8>,
    user_id: i32,
    role: UserRole,
    now: u64,
    later: u64,
)
    requires
        now + 86400 <= u64::MAX,
        later < now + 86400,
    ensures
        spec_verify_token(secret, spec_token(secret, spec_claims_at(user_id, role, now)), later)
            == Some(spec_claims_at(user_id, role, now)),
        spec_claims_at(user_id, role, now).sub == user_id,
{
    lemma_verify_of_token(secret, spec_claims_at(user_id, role, now), later);
}

/// A token whose signature text is anything but the HMAC of its first
/// two segments is rejected, at every moment.
pub proof fn lemma_tampered_signature(secret: Seq<u8>, c: Claims, sig2: Seq<u8>, now: u64)
    requires
        sig2 != hmac_b64_of(secret, spec_signing_input(c)),
    ensures
        spec_verify_token(secret, spec_signing_input(c) + seq![46u8] + sig2, now) is None,
{
    let h = spec_b64_encode(spec_header_json());
    let b = spec_b64_encode(spec_claims_json(c));
    let si = spec_signing_input(c);
    let t = si + seq![46u8] + sig2;
    lemma_b64_encode_bytes(spec_header_json());
    lemma_b64_encode_bytes(spec_claims_json(c));
    assert forall|k: int| 0 <= k < h.len() implies t[k] != 46 by {
        assert(t[k] == h[k]);
    }
    assert(t[h.len() as int] == 46);
    lemma_find_byte(t, 46, 0, h.len() as int);
    let d1 = h.len() as int;
    assert forall|k: int| d1 + 1 <= k < d1 + 1 + b.len() implies t[k] != 46 by {
        assert(t[k] == b[k - d1 - 1]);
    }
    assert(t[d1 + 1 + b.len()] == 46);
    lemma_find_byte(t, 46, d1 + 1, d1 + 1 + b.len());
    let d2 = d1 + 1 + b.len();
    assert(t.subrange(0, d2) =~= si);
    assert(t.subrange(d2 + 1, t.len() as int) =~= sig2);
}

} // verus!
