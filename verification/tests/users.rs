use card_platform::auth::AuthenticatedUser;
use card_platform::config::AppConfig;
use card_platform::errors::AppError;
use card_platform::handlers::card::{activate_card, delete_card, generate_card, verify_card};
use card_platform::handlers::user::{
    delete_user, get_all_users, get_user, login, register_user, update_user,
};
use card_platform::init::init_admin_user;
use card_platform::models::user::{CreateUserRequest, LoginRequest, UpdateUserRequest, UserRole};
use card_platform::models::{ActivateCardRequest, CreateCardRequest, VerifyCardRequest};
use card_platform::store::cards::CardStore;
use card_platform::store::users::UserStore;

fn test_config() -> AppConfig {
    AppConfig::new(b"test-signing-secret".to_vec(), 24, 16)
}

fn create_req(name: &str, password: &str, role: UserRole) -> CreateUserRequest {
    CreateUserRequest {
        username: name.to_string(),
        password: password.to_string(),
        email: None,
        role,
    }
}

fn admin_identity() -> AuthenticatedUser {
    AuthenticatedUser { user_id: 999, username: "root".to_string(), role: UserRole::Admin }
}

#[test]
fn registration_rejects_duplicates() {
    let mut store = UserStore::new();
    let info = register_user(&mut store, &create_req("alice", "pw", UserRole::User), 100).unwrap();
    assert_eq!(info.username, "alice");
    assert_eq!(info.role, UserRole::User);

    let again = register_user(&mut store, &create_req("alice", "other", UserRole::Admin), 200);
    assert!(matches!(again, Err(AppError::ValidationError)));
    assert_eq!(store.users.len(), 1);
}

#[test]
fn admin_user_listing_and_lookup() {
    let mut store = UserStore::new();
    let a = register_user(&mut store, &create_req("alice", "pw", UserRole::User), 100).unwrap();
    register_user(&mut store, &create_req("bob", "pw", UserRole::User), 100).unwrap();

    let listing = get_all_users(&store, admin_identity()).unwrap();
    assert_eq!(listing.len(), 2);
    assert_eq!(listing[0].username, "alice");
    assert_eq!(listing[1].username, "bob");

    let refused = get_all_users(
        &store,
        AuthenticatedUser { user_id: a.id, username: "alice".to_string(), role: UserRole::User },
    );
    assert!(matches!(refused, Err(AppError::Unauthorized)));

    let one = get_user(&store, admin_identity(), &a.id.to_string()).unwrap();
    assert_eq!(one.username, "alice");
    assert!(matches!(
        get_user(&store, admin_identity(), "424242"),
        Err(AppError::NotFound)
    ));
    assert!(matches!(
        get_user(&store, admin_identity(), "junk"),
        Err(AppError::ValidationError)
    ));
}

#[test]
fn update_user_changes_fields_and_password() {
    let mut store = UserStore::new();
    let config = test_config();
    let a = register_user(&mut store, &create_req("alice", "old-pw", UserRole::User), 100)
        .unwrap();
    register_user(&mut store, &create_req("bob", "pw", UserRole::User), 100).unwrap();

    // Renaming onto a taken username is a store-level failure.
    let steal = UpdateUserRequest {
        username: Some("bob".to_string()),
        password: None,
        email: None,
        role: None,
    };
    let refused = update_user(&mut store, admin_identity(), &a.id.to_string(), &steal, 200);
    assert!(matches!(refused, Err(AppError::PersistenceError)));

    let promote = UpdateUserRequest {
        username: None,
        password: Some("new-pw".to_string()),
        email: Some("alice@example.test".to_string()),
        role: Some(UserRole::Admin),
    };
    update_user(&mut store, admin_identity(), &a.id.to_string(), &promote, 200).unwrap();

    let old_login = LoginRequest { username: "alice".to_string(), password: "old-pw".to_string() };
    assert!(matches!(login(&mut store, &old_login, &config, 300), Err(AppError::Unauthorized)));

    let new_login = LoginRequest { username: "alice".to_string(), password: "new-pw".to_string() };
    let resp = login(&mut store, &new_login, &config, 300).unwrap();
    assert_eq!(resp.user.role, UserRole::Admin);
    assert_eq!(resp.user.email, Some("alice@example.test".to_string()));

    assert!(matches!(
        update_user(&mut store, admin_identity(), "424242", &UpdateUserRequest {
            username: None,
            password: None,
            email: None,
            role: None,
        }, 400),
        Err(AppError::NotFound)
    ));
}

#[test]
fn delete_user_is_admin_only() {
    let mut store = UserStore::new();
    let a = register_user(&mut store, &create_req("alice", "pw", UserRole::User), 100).unwrap();

    let not_admin =
        AuthenticatedUser { user_id: a.id, username: "alice".to_string(), role: UserRole::User };
    assert!(matches!(
        delete_user(&mut store, not_admin, &a.id.to_string()),
        Err(AppError::Unauthorized)
    ));

    delete_user(&mut store, admin_identity(), &a.id.to_string()).unwrap();
    assert_eq!(store.users.len(), 0);
    assert!(matches!(
        delete_user(&mut store, admin_identity(), &a.id.to_string()),
        Err(AppError::NotFound)
    ));
}

#[test]
fn admin_bootstrap_is_idempotent() {
    let mut store = UserStore::new();
    let config = test_config();
    init_admin_user(&mut store, "admin", "admin123", 50).unwrap();
    assert_eq!(store.users.len(), 1);
    assert_eq!(store.users[0].role, UserRole::Admin);

    // A second start leaves the existing account untouched.
    init_admin_user(&mut store, "admin", "different-pw", 60).unwrap();
    assert_eq!(store.users.len(), 1);

    let req = LoginRequest { username: "admin".to_string(), password: "admin123".to_string() };
    let resp = login(&mut store, &req, &config, 100).unwrap();
    assert_eq!(resp.user.role, UserRole::Admin);
}

#[test]
fn full_redemption_scenario() {
    let mut users = UserStore::new();
    let mut cards = CardStore::new();
    let config = test_config();

    // Register alice (role User); login succeeds and returns a token.
    let alice_info =
        register_user(&mut users, &create_req("alice", "wonder", UserRole::User), 100).unwrap();
    let resp = login(
        &mut users,
        &LoginRequest { username: "alice".to_string(), password: "wonder".to_string() },
        &config,
        1_000,
    )
    .unwrap();
    assert!(!resp.token.is_empty());
    let alice = AuthenticatedUser {
        user_id: alice_info.id,
        username: "alice".to_string(),
        role: UserRole::User,
    };

    // Generate 3 cards with duration 7.
    let batch = generate_card(
        &mut cards,
        &alice,
        &CreateCardRequest { duration_days: 7, count: 3 },
        &config,
        2_000,
    )
    .unwrap();
    assert_eq!(batch.len(), 3);

    // Activate card[0].
    let code0 = batch[0].card_number.clone();
    let activated =
        activate_card(&mut cards, &ActivateCardRequest { card_number: code0.clone() }, 3_000)
            .unwrap();
    assert!(activated.is_activated);

    // Verifying card[0] again returns the already-activated, non-expired
    // card unchanged.
    let seen = verify_card(
        &mut cards,
        &VerifyCardRequest { card_number: code0, user_identifier: None },
        3_500,
    )
    .unwrap();
    assert!(seen.is_activated);
    assert_eq!(seen.activated_at, Some(3_000));
    assert_eq!(seen.expires_at, Some(3_000 + 7 * 86_400));
    assert_eq!(seen.used_by_identifier, None);

    // Alice owns card[1], so she may delete it.
    let id1 = batch[1].id.unwrap().to_string();
    delete_card(&mut cards, &alice, &id1).unwrap();

    // A different non-admin cannot delete card[2]: NotFound.
    let mallory_info =
        register_user(&mut users, &create_req("mallory", "pw", UserRole::User), 100).unwrap();
    let mallory = AuthenticatedUser {
        user_id: mallory_info.id,
        username: "mallory".to_string(),
        role: UserRole::User,
    };
    let id2 = batch[2].id.unwrap().to_string();
    assert!(matches!(delete_card(&mut cards, &mallory, &id2), Err(AppError::NotFound)));
}
