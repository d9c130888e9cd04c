//! Bearer tokens: claims, the signed token format, and the stateless
//! checks (signature and expiry).
//!
//! A token is `payload.signature`, where the payload is
//! `sub.exp.role.username` (subject id and expiry in decimal, then the
//! role spelling, then the username, which may itself contain any
//! characters) and the signature is the HS256 MAC of the payload under
//! the process-wide secret. The codec is verified; only the MAC itself
//! is trusted.

use crate::codec::{
    dec_str, find_char, find_char_from, lemma_dec_str_props, lemma_find_char_is,
    lemma_parse_dec_str, parse_u64_range, range_is, spec_parse_u64, u64_to_string,
};
use crate::errors::AppError;
use crate::models::user::UserRole;
use vstd::prelude::*;
use vstd::string::StrSliceExecFns;
use vstd::string::StringExecFns;

verus! {

/// Claims carried by a bearer token: subject id, username, role, expiry.
#[derive(Debug)]
pub struct Claims {
    pub sub: u64,
    pub username: String,
    pub role: UserRole,
    pub exp: i64,
}

impl Claims {
    pub open spec fn wf(self) -> bool {
        0 <= self.exp
    }
}

/// The HS256 signature of `message` under `secret`, base64url-encoded,
/// as jsonwebtoken computes it. A deterministic function of its
/// arguments.
pub uninterp spec fn hs256_signature(secret: Seq<u8>, message: Seq<char>) -> Seq<char>;

/// Whether the signature of `message` under `secret` is free of `'.'`.
/// This holds of every signature the trusted signer returns (base64url
/// uses only letters, digits, `-` and `_`), and is what lets a token be
/// split again at its last dot.
pub open spec fn signature_dot_free(secret: Seq<u8>, message: Seq<char>) -> bool {
    forall|i: int|
        0 <= i < hs256_signature(secret, message).len() ==> #[trigger] hs256_signature(
            secret,
            message,
        )[i] != '.'
}

/// Relies on jsonwebtoken::crypto::sign with HS256: the result is a
/// deterministic function of secret and message, encoded in the
/// base64url alphabet (no `'.'`), and HMAC signing never fails.
#[verifier::external_body]
fn sign_message(message: &str, secret: &[u8]) -> (r: String)
    ensures
        r@ == hs256_signature(secret@, message@),
        forall|i: int| 0 <= i < r@.len() ==> (#[trigger] r@[i]) != '.',
{
    let key = jsonwebtoken::EncodingKey::from_secret(secret);
    jsonwebtoken::crypto::sign(message.as_bytes(), &key, jsonwebtoken::Algorithm::HS256).expect(
        "HMAC signing does not fail",
    )
}

/// Relies on jsonwebtoken::crypto::verify with HS256: it re-signs the
/// message under the secret and compares the result with the presented
/// signature in constant time; for HMAC algorithms it never fails.
#[verifier::external_body]
fn verify_signature(signature: &str, message: &str, secret: &[u8]) -> (r: bool)
    ensures
        r == (signature@ == hs256_signature(secret@, message@)),
{
    let key = jsonwebtoken::DecodingKey::from_secret(secret);
    jsonwebtoken::crypto::verify(
        signature,
        message.as_bytes(),
        &key,
        jsonwebtoken::Algorithm::HS256,
    ).expect("HMAC verification does not fail")
}

/// The canonical spelling of a role inside a token payload.
pub open spec fn role_str(r: UserRole) -> Seq<char> {
    if r is Admin {
        "ADMIN"@
    } else {
        "USER"@
    }
}

/// The token payload for the given claims.
pub open spec fn payload_of(sub: u64, exp: i64, role: UserRole, username: Seq<char>) -> Seq<
    char,
> {
    dec_str(sub as nat) + seq!['.'] + dec_str(exp as nat) + seq!['.'] + role_str(role)
        + seq!['.'] + username
}

/// The complete signed token for the given claims under `secret`.
pub open spec fn token_of(
    sub: u64,
    exp: i64,
    role: UserRole,
    username: Seq<char>,
    secret: Seq<u8>,
) -> Seq<char> {
    payload_of(sub, exp, role, username) + seq!['.'] + hs256_signature(
        secret,
        payload_of(sub, exp, role, username),
    )
}

/// Renders the payload of `claims`.
pub fn encode_payload(claims: &Claims) -> (r: String)
    requires
        claims.wf(),
    ensures
        r@ == payload_of(claims.sub, claims.exp, claims.role, claims.username@),
{
    proof {
        reveal_strlit(".");
        assert("."@ =~= seq!['.']);
    }
    let mut s = u64_to_string(claims.sub);
    s.append(".");
    let e = u64_to_string(claims.exp as u64);
    s.append(e.as_str());
    s.append(".");
    match claims.role {
        UserRole::Admin => s.append("ADMIN"),
        UserRole::User => s.append("USER"),
    }
    s.append(".");
    s.append(claims.username.as_str());
    proof {
        assert((claims.exp as u64) as nat == claims.exp as nat);
        assert(s@ =~= payload_of(claims.sub, claims.exp, claims.role, claims.username@));
    }
    s
}

/// What the payload parser accepts, and the claims it extracts.
pub open spec fn spec_parse_payload(s: Seq<char>) -> Option<(u64, i64, UserRole, Seq<char>)> {
    let i1 = find_char(s, '.');
    if i1 < 0 {
        None
    } else {
        let f1 = s.take(i1);
        let rest1 = s.skip(i1 + 1);
        let i2 = find_char(rest1, '.');
        if i2 < 0 {
            None
        } else {
            let f2 = rest1.take(i2);
            let rest2 = rest1.skip(i2 + 1);
            let i3 = find_char(rest2, '.');
            if i3 < 0 {
                None
            } else {
                let f3 = rest2.take(i3);
                let username = rest2.skip(i3 + 1);
                match (spec_parse_u64(f1), spec_parse_u64(f2)) {
                    (Some(sub), Some(expu)) => if expu <= i64::MAX as u64 {
                        if f3 == "ADMIN"@ {
                            Some((sub, expu as i64, UserRole::Admin, username))
                        } else if f3 == "USER"@ {
                            Some((sub, expu as i64, UserRole::User, username))
                        } else {
                            None
                        }
                    } else {
                        None
                    },
                    _ => None,
                }
            }
        }
    }
}

/// Parses a token payload back into claims.
pub fn parse_payload(s: &str) -> (r: Option<Claims>)
    ensures
        match r {
            Some(c) => spec_parse_payload(s@) == Some((c.sub, c.exp, c.role, c.username@))
                && c.wf(),
            None => spec_parse_payload(s@) is None,
        },
{
    let n = s.unicode_len();
    proof {
        assert(s@.skip(0) =~= s@);
    }
    let i1 = match find_char_from(s, 0, '.') {
        Some(i) => i,
        None => {
            return None;
        },
    };
    proof {
        assert(s@.take(i1 as int) =~= s@.subrange(0, i1 as int));
    }
    let sub = match parse_u64_range(s, 0, i1) {
        Some(v) => v,
        None => {
            return None;
        },
    };
    let ghost rest1 = s@.skip(i1 + 1);
    let i2 = match find_char_from(s, i1 + 1, '.') {
        Some(i) => i,
        None => {
            return None;
        },
    };
    proof {
        assert(rest1.take(i2 - (i1 + 1)) =~= s@.subrange(i1 + 1, i2 as int));
    }
    let expu = match parse_u64_range(s, i1 + 1, i2) {
        Some(v) => v,
        None => {
            return None;
        },
    };
    let ghost rest2 = rest1.skip(i2 - (i1 + 1) + 1);
    proof {
        assert(rest2 =~= s@.skip(i2 + 1));
    }
    let i3 = match find_char_from(s, i2 + 1, '.') {
        Some(i) => i,
        None => {
            return None;
        },
    };
    if expu > i64::MAX as u64 {
        return None;
    }
    proof {
        assert(rest2.take(i3 - (i2 + 1)) =~= s@.subrange(i2 + 1, i3 as int));
    }
    let role = if range_is(s, i2 + 1, i3, "ADMIN") {
        UserRole::Admin
    } else if range_is(s, i2 + 1, i3, "USER") {
        UserRole::User
    } else {
        return None;
    };
    let username = s.substring_char(i3 + 1, n).to_owned();
    proof {
        assert(rest2.skip(i3 - (i2 + 1) + 1) =~= s@.subrange(i3 + 1, n as int));
    }
    Some(Claims { sub, username, role, exp: expu as i64 })
}

/// Parsing a rendered payload gives the claims back, for any username
/// (the username stands last, so even its own dots cannot shift the
/// earlier fields).
pub proof fn lemma_payload_round_trip(sub: u64, exp: i64, role: UserRole, username: Seq<char>)
    requires
        0 <= exp,
    ensures
        spec_parse_payload(payload_of(sub, exp, role, username)) == Some(
            (sub, exp, role, username),
        ),
{
    reveal_strlit("ADMIN");
    reveal_strlit("USER");
    let a = dec_str(sub as nat);
    let b = dec_str(exp as nat);
    let c = role_str(role);
    let p = payload_of(sub, exp, role, username);
    lemma_dec_str_props(sub as nat);
    lemma_dec_str_props(exp as nat);
    let al = a.len() as int;
    let bl = b.len() as int;
    let cl = c.len() as int;
    assert(p =~= a + seq!['.'] + b + seq!['.'] + c + seq!['.'] + username);
    // First separator.
    assert(p[al] == '.');
    assert forall|i: int| 0 <= i < al implies p[i] != '.' by {
        assert(p[i] == a[i]);
    }
    lemma_find_char_is(p, '.', al);
    assert(p.take(al) =~= a);
    lemma_parse_dec_str(sub);
    // Second separator.
    let rest1 = p.skip(al + 1);
    assert(rest1 =~= b + seq!['.'] + c + seq!['.'] + username);
    assert(rest1[bl] == '.');
    assert forall|i: int| 0 <= i < bl implies rest1[i] != '.' by {
        assert(rest1[i] == b[i]);
    }
    lemma_find_char_is(rest1, '.', bl);
    assert(rest1.take(bl) =~= b);
    lemma_parse_dec_str(exp as u64);
    assert((exp as u64) as nat == exp as nat);
    // Third separator: the role spelling holds no dot.
    let rest2 = rest1.skip(bl + 1);
    assert(rest2 =~= c + seq!['.'] + username);
    assert(rest2[cl] == '.');
    assert forall|i: int| 0 <= i < cl implies rest2[i] != '.' by {
        assert(rest2[i] == c[i]);
    }
    lemma_find_char_is(rest2, '.', cl);
    assert(rest2.take(cl) =~= c);
    assert(rest2.skip(cl + 1) =~= username);
    // The two role spellings are distinct.
    assert("ADMIN"@.len() != "USER"@.len());
    if role is Admin {
        assert(rest2.take(cl) == "ADMIN"@);
    } else {
        assert(rest2.take(cl) == "USER"@);
        assert(rest2.take(cl) != "ADMIN"@);
    }
    assert(exp as u64 <= i64::MAX as u64);
}

/// The greatest index of `c` in `s`, or -1 if `c` does not occur.
pub open spec fn rfind_char(s: Seq<char>, c: char) -> int
    decreases s.len(),
{
    if s.len() == 0 {
        -1
    } else if s.last() == c {
        s.len() - 1
    } else {
        rfind_char(s.drop_last(), c)
    }
}

pub proof fn lemma_rfind_char_props(s: Seq<char>, c: char)
    ensures
        rfind_char(s, c) == -1 ==> forall|i: int| 0 <= i < s.len() ==> s[i] != c,
        rfind_char(s, c) != -1 ==> {
            let r = rfind_char(s, c);
            &&& 0 <= r < s.len()
            &&& s[r] == c
            &&& forall|i: int| r < i < s.len() ==> s[i] != c
        },
    decreases s.len(),
{
    if s.len() > 0 && s.last() != c {
        let t = s.drop_last();
        lemma_rfind_char_props(t, c);
        assert forall|i: int| 0 <= i < t.len() implies t[i] == s[i] by {}
    }
}

/// `rfind_char` is pinned by the greatest-index characterization.
pub proof fn lemma_rfind_char_is(s: Seq<char>, c: char, j: int)
    requires
        0 <= j < s.len(),
        s[j] == c,
        forall|i: int| j < i < s.len() ==> s[i] != c,
    ensures
        rfind_char(s, c) == j,
{
    lemma_rfind_char_props(s, c);
    let r = rfind_char(s, c);
    if r == -1 {
        assert(s[j] != c);
    } else if r < j {
        assert(s[j] != c);
    } else if j < r {
        assert(s[r] != c);
    }
}

/// Finds the greatest occurrence of `c` in `s`.
fn rfind_char_in(s: &str, c: char) -> (r: Option<usize>)
    ensures
        match r {
            Some(i) => i < s@.len() && rfind_char(s@, c) == i,
            None => rfind_char(s@, c) == -1,
        },
{
    let n = s.unicode_len();
    let mut i = n;
    while i > 0
        invariant
            0 <= i <= n == s@.len(),
            forall|j: int| i <= j < s@.len() ==> s@[j] != c,
        decreases i,
    {
        i = i - 1;
        if s.get_char(i) == c {
            proof {
                lemma_rfind_char_is(s@, c, i as int);
            }
            return Some(i);
        }
    }
    proof {
        lemma_rfind_char_props(s@, c);
        if rfind_char(s@, c) != -1 {
            let r = rfind_char(s@, c);
            assert(s@[r] != c);
        }
    }
    None
}

/// The stateless part of validation: split at the last dot, check the
/// signature, parse the payload, check the expiry against `now`.
pub open spec fn spec_check_signed(t: Seq<char>, secret: Seq<u8>, now: i64) -> Result<
    (u64, i64, UserRole, Seq<char>),
    AppError,
> {
    let d = rfind_char(t, '.');
    if d < 0 {
        Err(AppError::InvalidSignature)
    } else {
        let payload = t.take(d);
        let sig = t.skip(d + 1);
        if sig != hs256_signature(secret, payload) {
            Err(AppError::InvalidSignature)
        } else {
            match spec_parse_payload(payload) {
                None => Err(AppError::InvalidSignature),
                Some((sub, exp, role, username)) => if exp <= now {
                    Err(AppError::TokenExpired)
                } else {
                    Ok((sub, exp, role, username))
                },
            }
        }
    }
}

/// Verifies signature and expiry of a presented token; no store access.
pub fn check_token_signed(token: &str, secret: &[u8], now: i64) -> (r: Result<Claims, AppError>)
    ensures
        match r {
            Ok(c) => spec_check_signed(token@, secret@, now) == Ok::<_, AppError>(
                (c.sub, c.exp, c.role, c.username@),
            ) && c.wf() && now < c.exp,
            Err(e) => spec_check_signed(token@, secret@, now) matches Err(e2) && e == e2,
        },
{
    let n = token.unicode_len();
    let d = match rfind_char_in(token, '.') {
        Some(d) => d,
        None => {
            return Err(AppError::InvalidSignature);
        },
    };
    let payload = token.substring_char(0, d);
    let sig = token.substring_char(d + 1, n);
    proof {
        assert(payload@ =~= token@.take(d as int));
        assert(sig@ =~= token@.skip(d + 1));
    }
    if !verify_signature(sig, payload, secret) {
        return Err(AppError::InvalidSignature);
    }
    let claims = match parse_payload(payload) {
        Some(c) => c,
        None => {
            return Err(AppError::InvalidSignature);
        },
    };
    if claims.exp <= now {
        return Err(AppError::TokenExpired);
    }
    Ok(claims)
}

/// Issues the signed token for `claims`: rendered payload plus its MAC.
pub fn make_token(claims: &Claims, secret: &[u8]) -> (r: String)
    requires
        claims.wf(),
    ensures
        r@ == token_of(claims.sub, claims.exp, claims.role, claims.username@, secret@),
        signature_dot_free(secret@, payload_of(claims.sub, claims.exp, claims.role, claims.username@)),
{
    let mut payload = encode_payload(claims);
    let sig = sign_message(payload.as_str(), secret);
    proof {
        reveal_strlit(".");
        assert("."@ =~= seq!['.']);
        assert forall|i: int|
            0 <= i < hs256_signature(secret@, payload@).len() implies #[trigger] hs256_signature(
            secret@,
            payload@,
        )[i] != '.' by {
            assert(sig@[i] != '.');
        }
    }
    payload.append(".");
    payload.append(sig.as_str());
    proof {
        assert(payload@ =~= token_of(
            claims.sub,
            claims.exp,
            claims.role,
            claims.username@,
            secret@,
        ));
    }
    payload
}

/// A well-signed, unexpired token checks out, and the claims recovered
/// are the claims it was issued for.
pub proof fn lemma_check_token_of(
    sub: u64,
    exp: i64,
    role: UserRole,
    username: Seq<char>,
    secret: Seq<u8>,
    now: i64,
)
    requires
        0 <= exp,
        now < exp,
        signature_dot_free(secret, payload_of(sub, exp, role, username)),
    ensures
        spec_check_signed(token_of(sub, exp, role, username, secret), secret, now) == Ok::<
            _,
            AppError,
        >((sub, exp, role, username)),
{
    let p = payload_of(sub, exp, role, username);
    let sig = hs256_signature(secret, p);
    let t = token_of(sub, exp, role, username, secret);
    assert(t =~= p + seq!['.'] + sig);
    assert(t[p.len() as int] == '.');
    assert forall|i: int| p.len() < i < t.len() implies t[i] != '.' by {
        assert(t[i] == sig[i - p.len() - 1]);
    }
    lemma_rfind_char_is(t, '.', p.len() as int);
    assert(t.take(p.len() as int) =~= p);
    assert(t.skip(p.len() as int + 1) =~= sig);
    lemma_payload_round_trip(sub, exp, role, username);
}

} // verus!
