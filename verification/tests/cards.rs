use card_platform::auth::AuthenticatedUser;
use card_platform::config::AppConfig;
use card_platform::errors::AppError;
use card_platform::handlers::card::{
    activate_card, delete_card, export_cards, generate_card, get_all_cards, verify_card,
};
use card_platform::models::user::UserRole;
use card_platform::models::{ActivateCardRequest, Card, CreateCardRequest, VerifyCardRequest};
use card_platform::store::cards::CardStore;

fn test_config() -> AppConfig {
    AppConfig::new(b"test-signing-secret".to_vec(), 24, 16)
}

fn alice() -> AuthenticatedUser {
    AuthenticatedUser { user_id: 1, username: String::from("alice"), role: UserRole::User }
}

fn bob() -> AuthenticatedUser {
    AuthenticatedUser { user_id: 2, username: String::from("bob"), role: UserRole::User }
}

fn admin() -> AuthenticatedUser {
    AuthenticatedUser { user_id: 0, username: String::from("admin"), role: UserRole::Admin }
}

fn activate_req(code: &str) -> ActivateCardRequest {
    ActivateCardRequest { card_number: code.to_string() }
}

fn verify_req(code: &str) -> VerifyCardRequest {
    VerifyCardRequest { card_number: code.to_string(), user_identifier: None }
}

#[test]
fn at_most_once_activation() {
    let mut store = CardStore::new();
    let config = test_config();
    let req = CreateCardRequest { duration_days: 30, count: 1 };
    let cards = generate_card(&mut store, &alice(), &req, &config, 1_000).unwrap();
    let code = cards[0].card_number.clone();

    let first = activate_card(&mut store, &activate_req(&code), 2_000);
    assert!(first.is_ok());
    let activated = first.unwrap();
    assert!(activated.is_activated);
    assert_eq!(activated.activated_at, Some(2_000));
    assert_eq!(activated.expires_at, Some(2_000 + 30 * 86_400));

    for later_now in [2_001, 3_000, 9_999] {
        let again = activate_card(&mut store, &activate_req(&code), later_now);
        match again {
            Err(AppError::AlreadyActivated(Some(card))) => {
                assert!(card.is_activated);
                assert_eq!(card.activated_at, Some(2_000));
                assert_eq!(card.expires_at, Some(2_000 + 30 * 86_400));
            }
            other => panic!("expected AlreadyActivated, got {:?}", other),
        }
    }
    let stored = store.find_by_code(&code).unwrap();
    assert!(stored.is_activated);
    assert_eq!(stored.activated_at, Some(2_000));
    assert_eq!(stored.expires_at, Some(2_000 + 30 * 86_400));
}

#[test]
fn activate_unknown_code_is_not_found() {
    let mut store = CardStore::new();
    let r = activate_card(&mut store, &activate_req("NOSUCHCODE"), 1_000);
    assert!(matches!(r, Err(AppError::NotFound)));
}

#[test]
fn expiry_arithmetic_window() {
    let mut store = CardStore::new();
    let config = test_config();
    let req = CreateCardRequest { duration_days: 7, count: 1 };
    let cards = generate_card(&mut store, &alice(), &req, &config, 500).unwrap();
    let code = cards[0].card_number.clone();

    let t = 10_000;
    let claimed = verify_card(&mut store, &verify_req(&code), t).unwrap();
    let expires = t + 7 * 86_400;
    assert_eq!(claimed.activated_at, Some(t));
    assert_eq!(claimed.expires_at, Some(expires));

    let just_before = verify_card(&mut store, &verify_req(&code), expires - 1);
    assert!(just_before.is_ok());

    let just_after = verify_card(&mut store, &verify_req(&code), expires + 1);
    match just_after {
        Err(AppError::Expired(card)) => assert_eq!(card.expires_at, Some(expires)),
        other => panic!("expected Expired, got {:?}", other),
    }

    // The window closes at the expiry instant itself.
    let at_expiry = verify_card(&mut store, &verify_req(&code), expires);
    assert!(matches!(at_expiry, Err(AppError::Expired(_))));
}

#[test]
fn verify_records_user_identifier_on_first_use() {
    let mut store = CardStore::new();
    let config = test_config();
    let req = CreateCardRequest { duration_days: 1, count: 1 };
    let cards = generate_card(&mut store, &alice(), &req, &config, 0).unwrap();
    let code = cards[0].card_number.clone();

    let vreq = VerifyCardRequest {
        card_number: code.clone(),
        user_identifier: Some(String::from("device-17")),
    };
    let claimed = verify_card(&mut store, &vreq, 100).unwrap();
    assert_eq!(claimed.used_by_identifier, Some(String::from("device-17")));
    assert_eq!(claimed.used_by, None);
}

#[test]
fn generation_bounds() {
    let mut store = CardStore::new();
    let config = test_config();

    let zero = CreateCardRequest { duration_days: 30, count: 0 };
    let one = generate_card(&mut store, &alice(), &zero, &config, 1).unwrap();
    assert_eq!(one.len(), 1);

    let huge = CreateCardRequest { duration_days: 30, count: 500 };
    let hundred = generate_card(&mut store, &alice(), &huge, &config, 2).unwrap();
    assert_eq!(hundred.len(), 100);

    let mut codes: Vec<String> = hundred.iter().map(|c| c.card_number.clone()).collect();
    codes.sort();
    codes.dedup();
    assert_eq!(codes.len(), 100);

    for c in &hundred {
        assert_eq!(c.card_number.len(), 16);
        assert!(c.card_number.chars().all(|ch| ch.is_ascii_alphanumeric()));
        assert!(!c.is_activated);
        assert_eq!(c.created_by, Some(1));
        assert_eq!(c.created_by_username, Some(String::from("alice")));
        assert_eq!(c.used_by, None);
        assert_eq!(c.used_by_identifier, None);
    }
}

#[test]
fn race_of_five_has_single_winner() {
    let mut store = CardStore::new();
    let config = test_config();
    let req = CreateCardRequest { duration_days: 30, count: 1 };
    let cards = generate_card(&mut store, &alice(), &req, &config, 1_000).unwrap();
    let code = cards[0].card_number.clone();

    let mut wins = 0;
    let mut losses = 0;
    for now in [5_000, 5_000, 5_001, 6_000, 7_000] {
        match activate_card(&mut store, &activate_req(&code), now) {
            Ok(card) => {
                wins += 1;
                assert!(card.is_activated);
            }
            Err(AppError::AlreadyActivated(_)) => losses += 1,
            other => panic!("unexpected outcome {:?}", other),
        }
    }
    assert_eq!(wins, 1);
    assert_eq!(losses, 4);

    let stored = store.find_by_code(&code).unwrap();
    assert_eq!(stored.activated_at, Some(5_000));
    assert_eq!(stored.expires_at, Some(5_000 + 30 * 86_400));
}

#[test]
fn ownership_filtering() {
    let mut store = CardStore::new();
    let config = test_config();
    let req = CreateCardRequest { duration_days: 30, count: 3 };
    generate_card(&mut store, &alice(), &req, &config, 1).unwrap();
    let req2 = CreateCardRequest { duration_days: 30, count: 2 };
    generate_card(&mut store, &bob(), &req2, &config, 2).unwrap();

    let alices = get_all_cards(&store, &alice());
    assert_eq!(alices.len(), 3);
    for c in &alices {
        assert_eq!(c.created_by, Some(1));
    }

    let bobs = get_all_cards(&store, &bob());
    assert_eq!(bobs.len(), 2);
    for c in &bobs {
        assert_eq!(c.created_by, Some(2));
    }

    let all = get_all_cards(&store, &admin());
    assert_eq!(all.len(), 5);
}

#[test]
fn delete_respects_ownership() {
    let mut store = CardStore::new();
    let config = test_config();
    let req = CreateCardRequest { duration_days: 30, count: 1 };
    let cards = generate_card(&mut store, &alice(), &req, &config, 1).unwrap();
    let id_text = cards[0].id.unwrap().to_string();

    // Another non-admin cannot tell "not yours" from "absent".
    let refused = delete_card(&mut store, &bob(), &id_text);
    assert!(matches!(refused, Err(AppError::NotFound)));
    assert_eq!(store.cards.len(), 1);

    let ok = delete_card(&mut store, &alice(), &id_text);
    assert!(ok.is_ok());
    assert_eq!(store.cards.len(), 0);

    let gone = delete_card(&mut store, &alice(), &id_text);
    assert!(matches!(gone, Err(AppError::NotFound)));
}

#[test]
fn admin_deletes_any_card() {
    let mut store = CardStore::new();
    let config = test_config();
    let req = CreateCardRequest { duration_days: 30, count: 1 };
    let cards = generate_card(&mut store, &alice(), &req, &config, 1).unwrap();
    let id_text = cards[0].id.unwrap().to_string();

    let ok = delete_card(&mut store, &admin(), &id_text);
    assert!(ok.is_ok());
    assert_eq!(store.cards.len(), 0);
}

#[test]
fn delete_rejects_malformed_id() {
    let mut store = CardStore::new();
    let r = delete_card(&mut store, &admin(), "not-a-number");
    assert!(matches!(r, Err(AppError::ValidationError)));
    let r2 = delete_card(&mut store, &admin(), "");
    assert!(matches!(r2, Err(AppError::ValidationError)));
}

#[test]
fn export_formats_rows_exactly() {
    let mut store = CardStore::new();
    let fresh = Card::new(String::from("CODEALPHA0000001"), 30, 1_000);
    let activated = Card::new(String::from("CODEBETA00000002"), 2, 1_000)
        .with_activation(86_400, None, Some(String::from("dev")));
    store.insert_many(vec![fresh, activated]).unwrap();

    let csv = export_cards(&store);
    let expected = "code,duration_days,status,activated_at,expires_at,created_at\n\
        CODEALPHA0000001,30,unactivated,-,-,1970-01-01T00:16:40+00:00\n\
        CODEBETA00000002,2,activated,1970-01-02T00:00:00+00:00,1970-01-04T00:00:00+00:00,1970-01-01T00:16:40+00:00\n";
    assert_eq!(csv, expected);
}

#[test]
fn generation_rejects_duplicate_codes_atomically() {
    let mut store = CardStore::new();
    let a = Card::new(String::from("SAMECODE"), 1, 0);
    let b = Card::new(String::from("SAMECODE"), 2, 0);
    let r = store.insert_many(vec![a, b]);
    assert!(matches!(r, Err(AppError::PersistenceError)));
    assert_eq!(store.cards.len(), 0);

    let c = Card::new(String::from("SAMECODE"), 1, 0);
    store.insert_many(vec![c]).unwrap();
    let d = Card::new(String::from("SAMECODE"), 2, 0);
    let r2 = store.insert_many(vec![d]);
    assert!(matches!(r2, Err(AppError::PersistenceError)));
    assert_eq!(store.cards.len(), 1);
}
