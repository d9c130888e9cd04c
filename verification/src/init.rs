//! Bootstrap of the admin account: created on first start, left alone
//! on every later one.

use crate::auth::{bcrypt_digest_accepted, bcrypt_verified, hash_password};
use crate::config::MAX_TIMESTAMP;
use crate::errors::AppError;
use crate::models::user::{User, UserRole};
use crate::store::users::{has_username, UserStore};
use vstd::prelude::*;

verus! {

/// Ensures an admin account under `admin_username` exists: a no-op when
/// the username is already taken, otherwise a fresh admin record with
/// the hashed bootstrap password.
pub fn init_admin_user(
    store: &mut UserStore,
    admin_username: &str,
    admin_password: &str,
    now: i64,
) -> (r: Result<(), AppError>)
    requires
        old(store).wf(),
        0 <= now <= MAX_TIMESTAMP,
    ensures
        final(store).wf(),
        has_username(old(store).users@, admin_username@) ==> r == Ok::<(), AppError>(()) && *final(store) == *old(store),
        !has_username(old(store).users@, admin_username@) ==> match r {
            Ok(_) => {
                let u = final(store).users@.last();
                &&& final(store).users@ == old(store).users@.push(u)
                &&& u.id == Some(old(store).next_id)
                &&& u.username@ == admin_username@
                &&& bcrypt_verified(admin_password@, u.password_hash@)
                &&& bcrypt_digest_accepted(u.password_hash@)
                &&& u.role == UserRole::Admin
                &&& u.email is None
                &&& u.last_token is None
            },
            Err(e) => {
                &&& *final(store) == *old(store)
                &&& (e is HashingError || (e is PersistenceError && old(store).next_id
                    == u64::MAX))
            },
        },
{
    if store.find_by_username(admin_username).is_some() {
        return Ok(());
    }
    let password_hash = match hash_password(admin_password) {
        Ok(h) => h,
        Err(_) => {
            return Err(AppError::HashingError);
        },
    };
    let admin = User::new(admin_username.to_owned(), password_hash, None, UserRole::Admin, now);
    match store.insert(admin) {
        Ok(_) => Ok(()),
        Err(e) => Err(e),
    }
}

} // verus!
