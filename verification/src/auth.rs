//! Password hashing, token issuance and validation, and the request
//! authentication gate.
//!
//! Token validity is not purely self-contained: after the signature and
//! expiry checks, the subject's record is consulted and the presented
//! token must be the most recently issued one — issuing a new token
//! supersedes every earlier one for that subject.

use crate::codec::{range_is, str_eq};
use crate::config::{AppConfig, MAX_TIMESTAMP, SECONDS_PER_HOUR};
use crate::errors::AppError;
use crate::models::user::{User, UserRole};
use crate::store::users::{has_user_id, user_idx, UserStore};
use crate::token::{
    lemma_check_token_of, make_token, payload_of, signature_dot_free, spec_check_signed,
    check_token_signed, token_of, Claims,
};
use vstd::prelude::*;
use vstd::string::StrSliceExecFns;

verus! {

/// An authenticated caller identity, as recovered from a valid token.
#[derive(Debug)]
pub struct AuthenticatedUser {
    pub user_id: u64,
    pub username: String,
    pub role: UserRole,
}

/// Whether bcrypt verification of `password` against `digest` succeeds:
/// a deterministic function of the two (the digest embeds its own cost
/// and salt, and verification re-derives from them).
pub uninterp spec fn bcrypt_verified(password: Seq<char>, digest: Seq<char>) -> bool;

/// Whether bcrypt accepts `digest` as well-formed. bcrypt's verify
/// fails exactly on a digest it cannot split (length, base64, cost out
/// of range) — a condition on the digest alone, never on the password —
/// and every digest bcrypt's hash produces is accepted.
pub uninterp spec fn bcrypt_digest_accepted(digest: Seq<char>) -> bool;

/// Declares bcrypt's error type so the wrappers below can return it;
/// opaque here, mapped to `AppError::HashingError` in verified code.
#[verifier::external_type_specification]
#[verifier::external_body]
pub struct ExBcryptError(bcrypt::BcryptError);

/// Relies on bcrypt::hash: the digest it returns is in bcrypt's own
/// format (so verification accepts it) and embeds the cost and the
/// fresh salt it drew, so verifying the hashed password against it
/// succeeds; it fails only on internal failure (e.g. no entropy).
#[verifier::external_body]
fn bcrypt_hash(password: &str) -> (r: Result<String, bcrypt::BcryptError>)
    ensures
        r matches Ok(h) ==> bcrypt_verified(password@, h@),
        r matches Ok(h) ==> bcrypt_digest_accepted(h@),
{
    bcrypt::hash(password, bcrypt::DEFAULT_COST)
}

/// Relies on bcrypt::verify: it splits the digest, re-hashes the
/// password under the digest's cost and salt, and compares — a
/// deterministic function of password and digest. It fails exactly on
/// a digest it cannot split, a condition on the digest alone.
#[verifier::external_body]
fn bcrypt_verify(password: &str, digest: &str) -> (r: Result<bool, bcrypt::BcryptError>)
    ensures
        r is Ok <==> bcrypt_digest_accepted(digest@),
        r matches Ok(b) ==> b == bcrypt_verified(password@, digest@),
{
    bcrypt::verify(password, digest)
}

/// Hashes a password with a slow, salted, adaptive hash.
pub fn hash_password(password: &str) -> (r: Result<String, AppError>)
    ensures
        r matches Ok(h) ==> bcrypt_verified(password@, h@),
        r matches Ok(h) ==> bcrypt_digest_accepted(h@),
        r matches Err(e) ==> e is HashingError,
{
    match bcrypt_hash(password) {
        Ok(h) => Ok(h),
        Err(_) => Err(AppError::HashingError),
    }
}

/// Verifies a password against a digest; a mismatch is an `Ok(false)`,
/// never an error. Errs exactly when the digest is one bcrypt refuses.
pub fn verify_password(password: &str, digest: &str) -> (r: Result<bool, AppError>)
    ensures
        r is Err <==> !bcrypt_digest_accepted(digest@),
        r matches Ok(b) ==> b == bcrypt_verified(password@, digest@),
        r matches Err(e) ==> e is HashingError,
{
    match bcrypt_verify(password, digest) {
        Ok(b) => Ok(b),
        Err(_) => Err(AppError::HashingError),
    }
}

/// Law: hash then verify with the same plaintext returns `Ok(true)`.
/// The hypotheses are exactly what `hash_password` promises of a digest
/// it produced and what `verify_password`'s contract allows of its
/// result; together they force the one outcome.
pub proof fn lemma_hash_verify_round_trip(
    password: Seq<char>,
    digest: Seq<char>,
    r: Result<bool, AppError>,
)
    requires
        bcrypt_verified(password, digest),
        bcrypt_digest_accepted(digest),
        r is Err <==> !bcrypt_digest_accepted(digest),
        r matches Ok(b) ==> b == bcrypt_verified(password, digest),
    ensures
        r == Ok::<bool, AppError>(true),
{
}

/// The expiry instant of a token issued at `now` under `config`.
pub open spec fn expiry_of(now: i64, config: &AppConfig) -> int {
    now + config.jwt_expiration_hours * (SECONDS_PER_HOUR as int)
}

/// Issues a signed bearer token for `user` and records it as the
/// subject's latest token. The bookkeeping write is best effort: a
/// subject absent from the store still receives a token.
pub fn generate_token(user: &User, store: &mut UserStore, config: &AppConfig, now: i64) -> (r:
    String)
    requires
        old(store).wf(),
        config.wf(),
        user.id is Some,
        0 <= now <= MAX_TIMESTAMP,
    ensures
        final(store).wf(),
        final(store).next_id == old(store).next_id,
        r@ == token_of(
            user.id->0,
            expiry_of(now, config) as i64,
            user.role,
            user.username@,
            config.jwt_secret@,
        ),
        signature_dot_free(
            config.jwt_secret@,
            payload_of(user.id->0, expiry_of(now, config) as i64, user.role, user.username@),
        ),
        has_user_id(old(store).users@, user.id->0) ==> final(store).users@ == old(
            store,
        ).users@.update(
            user_idx(old(store).users@, user.id->0),
            User {
                last_token: Some(r),
                ..old(store).users@[user_idx(old(store).users@, user.id->0)]
            },
        ),
        !has_user_id(old(store).users@, user.id->0) ==> *final(store) == *old(store),
{
    let exp: i64 = now + config.jwt_expiration_hours * SECONDS_PER_HOUR;
    let id = match user.id {
        Some(id) => id,
        None => 0,
    };
    let claims = Claims { sub: id, username: user.username.clone(), role: user.role, exp };
    let token = make_token(&claims, config.jwt_secret.as_slice());
    let persisted = token.clone();
    store.update_last_token(id, persisted);
    token
}

/// Store-side part of validation: the subject must still exist and the
/// presented token must be the subject's recorded latest token. A
/// subject with no recorded token has no valid session at all: at most
/// one token is ever valid for a subject — the recorded one.
pub fn check_token_current(claims: Claims, token: &str, user: &Option<User>) -> (r: Result<
    Claims,
    AppError,
>)
    ensures
        match user {
            None => r matches Err(e) && e is UnknownSubject,
            Some(u) => match u.last_token {
                Some(lt) => if lt@ != token@ {
                    r matches Err(e) && e is Superseded
                } else {
                    r == Ok::<Claims, AppError>(claims)
                },
                None => (r matches Err(e) && e is Superseded),
            },
        },
{
    match user {
        None => Err(AppError::UnknownSubject),
        Some(u) => match &u.last_token {
            Some(lt) => {
                if !str_eq(lt.as_str(), token) {
                    Err(AppError::Superseded)
                } else {
                    Ok(claims)
                }
            },
            None => Err(AppError::Superseded),
        },
    }
}

/// The full validation outcome over a store state: signature, expiry,
/// subject lookup, latest-token comparison.
pub open spec fn spec_validate(
    t: Seq<char>,
    users: Seq<User>,
    secret: Seq<u8>,
    now: i64,
) -> Result<(u64, i64, UserRole, Seq<char>), AppError> {
    match spec_check_signed(t, secret, now) {
        Err(e) => Err(e),
        Ok((sub, exp, role, username)) => {
            if !has_user_id(users, sub) {
                Err(AppError::UnknownSubject)
            } else {
                match users[user_idx(users, sub)].last_token {
                    Some(lt) => if lt@ != t {
                        Err(AppError::Superseded)
                    } else {
                        Ok((sub, exp, role, username))
                    },
                    None => Err(AppError::Superseded),
                }
            }
        },
    }
}

/// Validates a presented token: signature and expiry first, then the
/// subject's record and its latest-token comparison.
pub fn validate_token(token: &str, store: &UserStore, config: &AppConfig, now: i64) -> (r: Result<
    Claims,
    AppError,
>)
    requires
        store.wf(),
        config.wf(),
    ensures
        match r {
            Ok(c) => spec_validate(token@, store.users@, config.jwt_secret@, now) == Ok::<
                _,
                AppError,
            >((c.sub, c.exp, c.role, c.username@)) && c.wf() && now < c.exp,
            Err(e) => spec_validate(token@, store.users@, config.jwt_secret@, now) matches Err(e2)
                && e == e2,
        },
{
    let claims = match check_token_signed(token, config.jwt_secret.as_slice(), now) {
        Ok(c) => c,
        Err(e) => {
            return Err(e);
        },
    };
    let user = store.find_by_id(claims.sub);
    check_token_current(claims, token, &user)
}

/// Pure role gate: admins pass through, everyone else is refused.
pub fn require_admin(user: AuthenticatedUser) -> (r: Result<AuthenticatedUser, AppError>)
    ensures
        user.role == UserRole::Admin ==> r == Ok::<AuthenticatedUser, AppError>(user),
        user.role != UserRole::Admin ==> (r matches Err(e) && e is Unauthorized),
{
    if user.role == UserRole::Admin {
        Ok(user)
    } else {
        Err(AppError::Unauthorized)
    }
}

/// The authentication gate over an `Authorization` header value.
pub open spec fn spec_authenticate(
    header: Option<&str>,
    users: Seq<User>,
    secret: Seq<u8>,
    now: i64,
) -> Result<(u64, i64, UserRole, Seq<char>), AppError> {
    match header {
        None => Err(AppError::Unauthorized),
        Some(h) => {
            if h@.len() < 7 || h@.take(7) != "Bearer "@ {
                Err(AppError::Unauthorized)
            } else {
                spec_validate(h@.skip(7), users, secret, now)
            }
        },
    }
}

/// Extracts the bearer token from an `Authorization` header value and
/// validates it, producing the caller identity the handlers consume.
pub fn authenticate(header: Option<&str>, store: &UserStore, config: &AppConfig, now: i64) -> (r:
    Result<AuthenticatedUser, AppError>)
    requires
        store.wf(),
        config.wf(),
    ensures
        match r {
            Ok(a) => spec_authenticate(header, store.users@, config.jwt_secret@, now) matches Ok(
                t,
            ) && a.user_id == t.0 && a.role == t.2 && a.username@ == t.3,
            Err(e) => spec_authenticate(header, store.users@, config.jwt_secret@, now) matches Err(
                e2,
            ) && e == e2,
        },
{
    let h = match header {
        Some(h) => h,
        None => {
            return Err(AppError::Unauthorized);
        },
    };
    let n = h.unicode_len();
    if n < 7 {
        return Err(AppError::Unauthorized);
    }
    if !range_is(h, 0, 7, "Bearer ") {
        proof {
            assert(h@.subrange(0, 7) =~= h@.take(7));
        }
        return Err(AppError::Unauthorized);
    }
    proof {
        assert(h@.subrange(0, 7) =~= h@.take(7));
    }
    let token = h.substring_char(7, n);
    proof {
        assert(token@ =~= h@.skip(7));
    }
    match validate_token(token, store, config, now) {
        Ok(c) => Ok(AuthenticatedUser { user_id: c.sub, username: c.username, role: c.role }),
        Err(e) => Err(e),
    }
}

/// Law: a single active session per subject. After token A and then
/// token B have been issued for the same subject, and the store records
/// B as the latest, validating A fails with `Superseded` while B
/// validates to exactly the claims it was issued for. (Two issuances in
/// the same second produce the same token string; the law speaks of the
/// distinct-token case.)
pub proof fn lemma_single_active_session(
    user: User,
    users: Seq<User>,
    exp_a: i64,
    exp_b: i64,
    secret: Seq<u8>,
    now: i64,
)
    requires
        user.id is Some,
        0 <= exp_a,
        0 <= exp_b,
        now < exp_a,
        now < exp_b,
        signature_dot_free(secret, payload_of(user.id->0, exp_a, user.role, user.username@)),
        signature_dot_free(secret, payload_of(user.id->0, exp_b, user.role, user.username@)),
        token_of(user.id->0, exp_a, user.role, user.username@, secret) != token_of(
            user.id->0,
            exp_b,
            user.role,
            user.username@,
            secret,
        ),
        has_user_id(users, user.id->0),
        users[user_idx(users, user.id->0)].last_token matches Some(lt) && lt@ == token_of(
            user.id->0,
            exp_b,
            user.role,
            user.username@,
            secret,
        ),
    ensures
        spec_validate(
            token_of(user.id->0, exp_a, user.role, user.username@, secret),
            users,
            secret,
            now,
        ) == Err::<(u64, i64, UserRole, Seq<char>), AppError>(AppError::Superseded),
        spec_validate(
            token_of(user.id->0, exp_b, user.role, user.username@, secret),
            users,
            secret,
            now,
        ) == Ok::<(u64, i64, UserRole, Seq<char>), AppError>(
            (user.id->0, exp_b, user.role, user.username@),
        ),
{
    lemma_check_token_of(user.id->0, exp_a, user.role, user.username@, secret, now);
    lemma_check_token_of(user.id->0, exp_b, user.role, user.username@, secret, now);
}

} // verus!
