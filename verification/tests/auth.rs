use card_platform::auth::{
    authenticate, hash_password, require_admin, validate_token, verify_password,
    AuthenticatedUser,
};
use card_platform::config::AppConfig;
use card_platform::errors::AppError;
use card_platform::handlers::user::{login, register_user};
use card_platform::models::user::{parse_role, CreateUserRequest, LoginRequest, UserRole};
use card_platform::store::users::UserStore;

fn test_config() -> AppConfig {
    AppConfig::new(b"test-signing-secret".to_vec(), 24, 16)
}

fn register(store: &mut UserStore, name: &str, password: &str, role: UserRole, now: i64) -> u64 {
    let req = CreateUserRequest {
        username: name.to_string(),
        password: password.to_string(),
        email: None,
        role,
    };
    register_user(store, &req, now).unwrap().id
}

#[test]
fn hash_verify_round_trip() {
    let digest = hash_password("correct horse battery").unwrap();
    assert!(digest != "correct horse battery");
    assert_eq!(verify_password("correct horse battery", &digest).unwrap(), true);
    assert_eq!(verify_password("correct horse batterz", &digest).unwrap(), false);
    assert_eq!(verify_password("", &digest).unwrap(), false);
}

#[test]
fn verify_rejects_malformed_digest() {
    let r = verify_password("anything", "not-a-bcrypt-digest");
    assert!(matches!(r, Err(AppError::HashingError)));
}

#[test]
fn login_issues_validatable_token() {
    let mut store = UserStore::new();
    let config = test_config();
    let id = register(&mut store, "alice", "pw-1", UserRole::User, 100);

    let req = LoginRequest { username: "alice".to_string(), password: "pw-1".to_string() };
    let resp = login(&mut store, &req, &config, 1_000).unwrap();

    let claims = validate_token(&resp.token, &store, &config, 1_000).unwrap();
    assert_eq!(claims.sub, id);
    assert_eq!(claims.username, "alice");
    assert_eq!(claims.role, UserRole::User);
    assert_eq!(claims.exp, 1_000 + 24 * 3_600);
}

#[test]
fn login_rejects_bad_credentials() {
    let mut store = UserStore::new();
    let config = test_config();
    register(&mut store, "alice", "pw-1", UserRole::User, 100);

    let wrong_pw = LoginRequest { username: "alice".to_string(), password: "pw-2".to_string() };
    assert!(matches!(login(&mut store, &wrong_pw, &config, 1_000), Err(AppError::Unauthorized)));

    let wrong_user = LoginRequest { username: "bob".to_string(), password: "pw-1".to_string() };
    assert!(matches!(login(&mut store, &wrong_user, &config, 1_000), Err(AppError::Unauthorized)));
}

#[test]
fn single_active_session() {
    let mut store = UserStore::new();
    let config = test_config();
    register(&mut store, "alice", "pw-1", UserRole::User, 100);
    let req = LoginRequest { username: "alice".to_string(), password: "pw-1".to_string() };

    // Two logins one second apart: distinct expiries, distinct tokens.
    let token_a = login(&mut store, &req, &config, 1_000).unwrap().token;
    let token_b = login(&mut store, &req, &config, 1_001).unwrap().token;
    assert!(token_a != token_b);

    let stale = validate_token(&token_a, &store, &config, 1_002);
    assert!(matches!(stale, Err(AppError::Superseded)));

    let fresh = validate_token(&token_b, &store, &config, 1_002).unwrap();
    assert_eq!(fresh.username, "alice");
    assert_eq!(fresh.exp, 1_001 + 24 * 3_600);
}

#[test]
fn validation_failure_modes() {
    let mut store = UserStore::new();
    let config = test_config();
    let id = register(&mut store, "alice", "pw-1", UserRole::User, 100);
    let req = LoginRequest { username: "alice".to_string(), password: "pw-1".to_string() };
    let token = login(&mut store, &req, &config, 1_000).unwrap().token;

    // Garbage is refused before any store access.
    let garbage = validate_token("no-dots-here", &store, &config, 1_000);
    assert!(matches!(garbage, Err(AppError::InvalidSignature)));

    // A tampered payload no longer matches its signature.
    let mut forged = String::from("9");
    forged.push_str(&token);
    assert!(matches!(
        validate_token(&forged, &store, &config, 1_000),
        Err(AppError::InvalidSignature)
    ));

    // Expiry is enforced before the store lookup.
    let expired = validate_token(&token, &store, &config, 1_000 + 24 * 3_600);
    assert!(matches!(expired, Err(AppError::TokenExpired)));

    // A valid token whose subject has vanished is refused.
    store.delete(id);
    let orphan = validate_token(&token, &store, &config, 2_000);
    assert!(matches!(orphan, Err(AppError::UnknownSubject)));
}

#[test]
fn no_recorded_token_means_no_valid_session() {
    let mut store = UserStore::new();
    let config = test_config();
    let id = register(&mut store, "alice", "pw-1", UserRole::User, 100);

    // A well-signed, unexpired token whose subject exists but has no
    // recorded latest token: at most the recorded token is ever valid,
    // so this one is stale.
    let claims = card_platform::token::Claims {
        sub: id,
        username: "alice".to_string(),
        role: UserRole::User,
        exp: 10_000,
    };
    let token = card_platform::token::make_token(&claims, &config.jwt_secret);
    let r = validate_token(&token, &store, &config, 1_000);
    assert!(matches!(r, Err(AppError::Superseded)));
}

#[test]
fn authenticate_extracts_bearer_tokens() {
    let mut store = UserStore::new();
    let config = test_config();
    register(&mut store, "alice", "pw-1", UserRole::Admin, 100);
    let req = LoginRequest { username: "alice".to_string(), password: "pw-1".to_string() };
    let token = login(&mut store, &req, &config, 1_000).unwrap().token;

    let header = format!("Bearer {}", token);
    let identity = authenticate(Some(&header), &store, &config, 1_000).unwrap();
    assert_eq!(identity.username, "alice");
    assert_eq!(identity.role, UserRole::Admin);

    assert!(matches!(
        authenticate(None, &store, &config, 1_000),
        Err(AppError::Unauthorized)
    ));
    let basic = format!("Basic {}", token);
    assert!(matches!(
        authenticate(Some(&basic), &store, &config, 1_000),
        Err(AppError::Unauthorized)
    ));
    assert!(matches!(
        authenticate(Some("Bearer"), &store, &config, 1_000),
        Err(AppError::Unauthorized)
    ));
}

#[test]
fn require_admin_gates_by_role() {
    let admin = AuthenticatedUser {
        user_id: 1,
        username: "root".to_string(),
        role: UserRole::Admin,
    };
    assert!(require_admin(admin).is_ok());

    let plain = AuthenticatedUser {
        user_id: 2,
        username: "alice".to_string(),
        role: UserRole::User,
    };
    assert!(matches!(require_admin(plain), Err(AppError::Unauthorized)));
}

#[test]
fn role_spellings_normalize() {
    assert_eq!(parse_role("ADMIN"), Some(UserRole::Admin));
    assert_eq!(parse_role("Admin"), Some(UserRole::Admin));
    assert_eq!(parse_role("admin"), Some(UserRole::Admin));
    assert_eq!(parse_role("USER"), Some(UserRole::User));
    assert_eq!(parse_role("User"), Some(UserRole::User));
    assert_eq!(parse_role("user"), Some(UserRole::User));
    assert_eq!(parse_role("root"), None);
    assert_eq!(parse_role(""), None);
}

#[test]
fn tokens_carry_usernames_with_dots_and_unicode() {
    let mut store = UserStore::new();
    let config = test_config();
    register(&mut store, "dr.alice.v2 Ω", "pw-1", UserRole::User, 100);
    let req = LoginRequest {
        username: "dr.alice.v2 Ω".to_string(),
        password: "pw-1".to_string(),
    };
    let token = login(&mut store, &req, &config, 1_000).unwrap().token;
    let claims = validate_token(&token, &store, &config, 1_000).unwrap();
    assert_eq!(claims.username, "dr.alice.v2 Ω");
}
