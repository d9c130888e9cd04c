//! Account management: registration, login, the current-user echo, and
//! the admin-only read/update/delete operations.

use crate::auth::{
    bcrypt_digest_accepted, bcrypt_verified, expiry_of, generate_token, hash_password,
    require_admin, verify_password, AuthenticatedUser,
};
use crate::codec::{parse_u64_range, spec_parse_u64};
use crate::config::{AppConfig, MAX_TIMESTAMP};
use crate::errors::AppError;
use crate::models::clone_opt_string;
use crate::models::user::{
    CreateUserRequest, LoginRequest, LoginResponse, UpdateUserRequest, User, UserInfo, UserRole,
};
use crate::store::users::{
    apply_update, has_user_id, has_username, lemma_user_idx_is, rename_conflict, user_idx,
    username_idx, UserStore,
};
use crate::token::{payload_of, signature_dot_free, token_of};
use vstd::prelude::*;
use vstd::string::StrSliceExecFns;

verus! {

/// Registers a new account: refused while the username is taken, hashed
/// and persisted otherwise.
pub fn register_user(store: &mut UserStore, req: &CreateUserRequest, now: i64) -> (r: Result<
    UserInfo,
    AppError,
>)
    requires
        old(store).wf(),
        0 <= now <= MAX_TIMESTAMP,
    ensures
        final(store).wf(),
        has_username(old(store).users@, req.username@) ==> (r matches Err(e)
            && e is ValidationError) && *final(store) == *old(store),
        !has_username(old(store).users@, req.username@) ==> match r {
            Ok(info) => {
                let u = final(store).users@.last();
                &&& final(store).users@ == old(store).users@.push(u)
                &&& final(store).next_id == old(store).next_id + 1
                &&& u.id == Some(old(store).next_id)
                &&& u.username == req.username
                &&& bcrypt_verified(req.password@, u.password_hash@)
                &&& bcrypt_digest_accepted(u.password_hash@)
                &&& u.email == req.email
                &&& u.role == req.role
                &&& u.created_at == now && u.updated_at == now
                &&& u.last_token is None
                &&& info.id == old(store).next_id
                &&& info.username == req.username
                &&& info.email == req.email
                &&& info.role == req.role
            },
            Err(e) => {
                &&& *final(store) == *old(store)
                &&& (e is HashingError || (e is PersistenceError && old(store).next_id
                    == u64::MAX))
            },
        },
{
    if store.find_by_username(req.username.as_str()).is_some() {
        return Err(AppError::ValidationError);
    }
    let password_hash = match hash_password(req.password.as_str()) {
        Ok(h) => h,
        Err(_) => {
            return Err(AppError::HashingError);
        },
    };
    let user = User::new(
        req.username.clone(),
        password_hash,
        clone_opt_string(&req.email),
        req.role,
        now,
    );
    let ghost stored = user;
    let id = match store.insert(user) {
        Ok(id) => id,
        Err(e) => {
            return Err(e);
        },
    };
    proof {
        assert(final(store).users@.last() == (User { id: Some(id), ..stored }));
    }
    Ok(
        UserInfo {
            id,
            username: req.username.clone(),
            email: clone_opt_string(&req.email),
            role: req.role,
        },
    )
}

/// Login: password check against the stored digest, then issuance of a
/// fresh token, which becomes the account's only valid session. An
/// unknown username and a wrong password fail alike (`Unauthorized`);
/// with an accepted digest, success is owed exactly on the matching
/// password.
pub fn login(store: &mut UserStore, req: &LoginRequest, config: &AppConfig, now: i64) -> (r:
    Result<LoginResponse, AppError>)
    requires
        old(store).wf(),
        config.wf(),
        0 <= now <= MAX_TIMESTAMP,
    ensures
        final(store).wf(),
        final(store).next_id == old(store).next_id,
        !has_username(old(store).users@, req.username@) ==> (r matches Err(e)
            && e is Unauthorized) && *final(store) == *old(store),
        has_username(old(store).users@, req.username@) ==> ({
            let u = old(store).users@[username_idx(old(store).users@, req.username@)];
            match r {
                Ok(resp) => {
                    &&& bcrypt_verified(req.password@, u.password_hash@)
                    &&& resp.token@ == token_of(
                        u.id->0,
                        expiry_of(now, config) as i64,
                        u.role,
                        u.username@,
                        config.jwt_secret@,
                    )
                    &&& signature_dot_free(
                        config.jwt_secret@,
                        payload_of(u.id->0, expiry_of(now, config) as i64, u.role, u.username@),
                    )
                    &&& resp.user.id == u.id->0
                    &&& resp.user.username == u.username
                    &&& resp.user.email == u.email
                    &&& resp.user.role == u.role
                    &&& final(store).users@ == old(store).users@.update(
                        username_idx(old(store).users@, req.username@),
                        User { last_token: Some(resp.token), ..u },
                    )
                },
                Err(e) => {
                    &&& *final(store) == *old(store)
                    &&& e is HashingError ==> !bcrypt_digest_accepted(u.password_hash@)
                    &&& e is Unauthorized ==> !bcrypt_verified(req.password@, u.password_hash@)
                    &&& (e is HashingError || e is Unauthorized)
                },
            }
        }),
        has_username(old(store).users@, req.username@) ==> ({
            let u = old(store).users@[username_idx(old(store).users@, req.username@)];
            &&& (bcrypt_digest_accepted(u.password_hash@) && bcrypt_verified(
                req.password@,
                u.password_hash@,
            ) ==> r is Ok)
            &&& (bcrypt_digest_accepted(u.password_hash@) && !bcrypt_verified(
                req.password@,
                u.password_hash@,
            ) ==> (r matches Err(e) && e is Unauthorized))
        }),
{
    let user = match store.find_by_username(req.username.as_str()) {
        Some(u) => u,
        None => {
            return Err(AppError::Unauthorized);
        },
    };
    match verify_password(req.password.as_str(), user.password_hash.as_str()) {
        Ok(true) => {},
        Ok(false) => {
            return Err(AppError::Unauthorized);
        },
        Err(_) => {
            return Err(AppError::HashingError);
        },
    }
    proof {
        let ghost i = username_idx(old(store).users@, req.username@);
        lemma_user_idx_is(old(store).users@, user.id->0, i);
    }
    let token = generate_token(&user, store, config, now);
    let user_info = UserInfo::from(user);
    Ok(LoginResponse { token, user: user_info })
}

/// Echoes the authenticated caller's identity.
pub fn get_current_user(user: AuthenticatedUser) -> (r: AuthenticatedUser)
    ensures
        r == user,
{
    user
}

/// Admin-only: every account, projected without credential material.
pub fn get_all_users(store: &UserStore, user: AuthenticatedUser) -> (r: Result<
    Vec<UserInfo>,
    AppError,
>)
    requires
        store.wf(),
    ensures
        user.role != UserRole::Admin ==> (r matches Err(e) && e is Unauthorized),
        user.role == UserRole::Admin ==> (r matches Ok(infos) && infos@.len()
            == store.users@.len() && forall|i: int|
            0 <= i < infos@.len() ==> {
                let u = store.users@[i];
                &&& (#[trigger] infos@[i]).id == u.id->0
                &&& infos@[i].username == u.username
                &&& infos@[i].email == u.email
                &&& infos@[i].role == u.role
            }),
{
    if let Err(e) = require_admin(user) {
        return Err(e);
    }
    let n = store.users.len();
    let mut infos: Vec<UserInfo> = Vec::new();
    let mut i: usize = 0;
    while i < n
        invariant
            0 <= i <= n == store.users@.len(),
            store.wf(),
            infos@.len() == i,
            forall|j: int|
                0 <= j < i ==> {
                    let u = store.users@[j];
                    &&& (#[trigger] infos@[j]).id == u.id->0
                    &&& infos@[j].username == u.username
                    &&& infos@[j].email == u.email
                    &&& infos@[j].role == u.role
                },
        decreases n - i,
    {
        let copy = store.users[i].duplicate();
        infos.push(UserInfo::from(copy));
        i = i + 1;
    }
    Ok(infos)
}

/// Admin-only: one account by its (decimal) id.
pub fn get_user(store: &UserStore, user: AuthenticatedUser, id_text: &str) -> (r: Result<
    UserInfo,
    AppError,
>)
    requires
        store.wf(),
    ensures
        user.role != UserRole::Admin ==> (r matches Err(e) && e is Unauthorized),
        user.role == UserRole::Admin && spec_parse_u64(id_text@) is None ==> (r matches Err(e)
            && e is ValidationError),
        user.role == UserRole::Admin ==> (spec_parse_u64(id_text@) matches Some(id) ==> {
            &&& !has_user_id(store.users@, id) ==> (r matches Err(e) && e is NotFound)
            &&& has_user_id(store.users@, id) ==> ({
                let u = store.users@[user_idx(store.users@, id)];
                r matches Ok(info) && info.id == id && info.username == u.username && info.email
                    == u.email && info.role == u.role
            })
        }),
{
    if let Err(e) = require_admin(user) {
        return Err(e);
    }
    let n = id_text.unicode_len();
    proof {
        assert(id_text@.subrange(0, n as int) =~= id_text@);
    }
    let id = match parse_u64_range(id_text, 0, n) {
        Some(v) => v,
        None => {
            return Err(AppError::ValidationError);
        },
    };
    match store.find_by_id(id) {
        Some(u) => Ok(UserInfo::from(u)),
        None => Err(AppError::NotFound),
    }
}

/// Admin-only: updates the named fields of an account; a request
/// carrying a new password stores its hash, never the plaintext. When
/// no password change is asked, every outcome is deterministic: the
/// write goes through exactly when the id exists and the requested
/// username collides with no other record.
pub fn update_user(
    store: &mut UserStore,
    user: AuthenticatedUser,
    id_text: &str,
    req: &UpdateUserRequest,
    now: i64,
) -> (r: Result<(), AppError>)
    requires
        old(store).wf(),
        0 <= now <= MAX_TIMESTAMP,
    ensures
        final(store).wf(),
        final(store).next_id == old(store).next_id,
        user.role != UserRole::Admin ==> (r matches Err(e) && e is Unauthorized) && *final(store)
            == *old(store),
        user.role == UserRole::Admin && spec_parse_u64(id_text@) is None ==> (r matches Err(e)
            && e is ValidationError) && *final(store) == *old(store),
        user.role == UserRole::Admin ==> (spec_parse_u64(id_text@) matches Some(id) ==> match r {
            Ok(_) => {
                let idx = user_idx(old(store).users@, id);
                let u1 = old(store).users@[idx];
                let u2 = final(store).users@[idx];
                &&& has_user_id(old(store).users@, id)
                &&& final(store).users@ == old(store).users@.update(idx, u2)
                &&& u2.username == (if req.username is Some {
                    req.username->0
                } else {
                    u1.username
                })
                &&& u2.email == (if req.email is Some {
                    req.email
                } else {
                    u1.email
                })
                &&& u2.role == (if req.role is Some {
                    req.role->0
                } else {
                    u1.role
                })
                &&& req.password is Some ==> bcrypt_verified(
                    req.password->0@,
                    u2.password_hash@,
                )
                &&& req.password is Some ==> bcrypt_digest_accepted(u2.password_hash@)
                &&& req.password is None ==> u2.password_hash == u1.password_hash
                &&& u2.updated_at == now
                &&& u2.id == u1.id
                &&& u2.created_at == u1.created_at
                &&& u2.last_token == u1.last_token
            },
            Err(e) => {
                &&& e is NotFound ==> !has_user_id(old(store).users@, id) && *final(store)
                    == *old(store)
                &&& (e is HashingError || e is PersistenceError) ==> *final(store) == *old(store)
                &&& (e is NotFound || e is HashingError || e is PersistenceError)
            },
        }),
        user.role == UserRole::Admin ==> (spec_parse_u64(id_text@) matches Some(id) ==> (
        req.password is None ==> {
            &&& (r is Ok <==> has_user_id(old(store).users@, id) && !rename_conflict(
                old(store).users@,
                id,
                req.username,
            ))
            &&& ((r matches Err(e) && e is PersistenceError) <==> has_user_id(
                old(store).users@,
                id,
            ) && rename_conflict(old(store).users@, id, req.username))
            &&& ((r matches Err(e) && e is NotFound) <==> !has_user_id(old(store).users@, id))
        })),
{
    if let Err(e) = require_admin(user) {
        return Err(e);
    }
    let n = id_text.unicode_len();
    proof {
        assert(id_text@.subrange(0, n as int) =~= id_text@);
    }
    let id = match parse_u64_range(id_text, 0, n) {
        Some(v) => v,
        None => {
            return Err(AppError::ValidationError);
        },
    };
    let password_hash = match &req.password {
        Some(p) => match hash_password(p.as_str()) {
            Ok(h) => Some(h),
            Err(_) => {
                return Err(AppError::HashingError);
            },
        },
        None => None,
    };
    let ghost h_snap = password_hash;
    let matched = match store.update_fields(
        id,
        clone_opt_string(&req.username),
        clone_opt_string(&req.email),
        req.role,
        password_hash,
        now,
    ) {
        Ok(m) => m,
        Err(_) => {
            return Err(AppError::PersistenceError);
        },
    };
    if matched == 0 {
        return Err(AppError::NotFound);
    }
    proof {
        let idx = user_idx(old(store).users@, id);
        assert(store.users@[idx] == apply_update(
            old(store).users@[idx],
            req.username,
            req.email,
            req.role,
            h_snap,
            now,
        ));
    }
    Ok(())
}

/// Admin-only: deletes an account by its (decimal) id.
pub fn delete_user(store: &mut UserStore, user: AuthenticatedUser, id_text: &str) -> (r: Result<
    (),
    AppError,
>)
    requires
        old(store).wf(),
    ensures
        final(store).wf(),
        final(store).next_id == old(store).next_id,
        user.role != UserRole::Admin ==> (r matches Err(e) && e is Unauthorized) && *final(store)
            == *old(store),
        user.role == UserRole::Admin && spec_parse_u64(id_text@) is None ==> (r matches Err(e)
            && e is ValidationError) && *final(store) == *old(store),
        user.role == UserRole::Admin ==> (spec_parse_u64(id_text@) matches Some(id) ==> {
            &&& has_user_id(old(store).users@, id) ==> r == Ok::<(), AppError>(()) && final(store).users@ == old(store).users@.remove(user_idx(old(store).users@, id))
            &&& !has_user_id(old(store).users@, id) ==> (r matches Err(e) && e is NotFound)
                && *final(store) == *old(store)
        }),
{
    if let Err(e) = require_admin(user) {
        return Err(e);
    }
    let n = id_text.unicode_len();
    proof {
        assert(id_text@.subrange(0, n as int) =~= id_text@);
    }
    let id = match parse_u64_range(id_text, 0, n) {
        Some(v) => v,
        None => {
            return Err(AppError::ValidationError);
        },
    };
    let deleted = store.delete(id);
    if deleted == 0 {
        Err(AppError::NotFound)
    } else {
        Ok(())
    }
}

} // verus!
