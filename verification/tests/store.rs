use provisioning::auth::Password;
use provisioning::db::{Database, DEFAULT_TOKEN_TTL_SECS};
use provisioning::model::StoreError;
use provisioning::table::Table;

const T0: i64 = 1_700_000_000;

fn password(plain: &str) -> Password {
    Password::from_plain(plain.to_string(), 4).ok().unwrap()
}

fn store_with_device() -> Database {
    let mut db = Database::new();
    assert_eq!(db.insert_device("DEV1".to_string(), "porch", "sensor", T0), Ok(()));
    db
}

#[test]
fn new_store_is_empty() {
    let db = Database::new();
    assert_eq!(db.device_count(), 0);
    assert_eq!(db.token_count(), 0);
    assert_eq!(db.credentials_count(), 0);
    assert_eq!(db.status_count(), 0);
    assert_eq!(db.settings_count(), 0);
    assert_eq!(db.iphone_data_count(), 0);
    assert!(db.device("DEV1").is_none());
}

#[test]
fn device_identifier_is_unique() {
    let mut db = store_with_device();
    assert_eq!(
        db.insert_device("DEV1".to_string(), "other", "iphone", T0 + 1),
        Err(StoreError::DuplicateKey)
    );
    let device = db.device("DEV1").unwrap();
    assert_eq!(device.name, "porch");
    assert_eq!(device.device_type, "sensor");
    assert_eq!(device.created_at, T0);
    assert_eq!(db.device_count(), 1);
}

#[test]
fn created_device_gets_a_random_identifier() {
    let mut db = Database::new();
    let first = db.create_device("porch", "sensor", T0).unwrap();
    let second = db.create_device("attic", "iphone", T0 + 1).unwrap();
    assert_ne!(first, second);
    assert_eq!(first.len(), 36);
    assert_eq!(uuid::Uuid::parse_str(&first).unwrap().get_version_num(), 4);
    assert_eq!(db.device(&first).unwrap().name, "porch");
    assert_eq!(db.device(&second).unwrap().device_type, "iphone");
    assert_eq!(db.device(&second).unwrap().created_at, T0 + 1);
}

#[test]
fn minted_token_lives_six_hours() {
    let mut db = store_with_device();
    let token = db.create_registration_token("DEV1", T0).unwrap();
    assert_eq!(DEFAULT_TOKEN_TTL_SECS, 6 * 60 * 60);
    let row = db.token(&token).unwrap();
    assert_eq!(row.device_id, "DEV1");
    assert_eq!(row.created_at, T0);
    assert_eq!(row.expires_at, T0 + 21600);
    assert!(!row.used);
    assert_eq!(uuid::Uuid::parse_str(&token).unwrap().to_string(), token);
}

#[test]
fn minted_token_takes_a_given_life_span() {
    let mut db = store_with_device();
    let token = db.create_registration_token_with_ttl("DEV1", T0, 60).unwrap();
    assert_eq!(db.token(&token).unwrap().expires_at, T0 + 60);
    assert_eq!(db.get_device_id_from_token(&token, T0 + 59), Ok("DEV1".to_string()));
    assert_eq!(db.get_device_id_from_token(&token, T0 + 60), Err(StoreError::TokenInvalid));
}

#[test]
fn minting_leaves_earlier_tokens_alone() {
    let mut db = store_with_device();
    let first = db.create_registration_token("DEV1", T0).unwrap();
    let second = db.create_registration_token("DEV1", T0 + 5).unwrap();
    assert_ne!(first, second);
    assert_eq!(db.token_count(), 2);
    assert_eq!(db.token(&first).unwrap().expires_at, T0 + 21600);
    assert!(!db.token(&first).unwrap().used);
    assert_eq!(db.get_device_id_from_token(&first, T0 + 6), Ok("DEV1".to_string()));
}

#[test]
fn token_for_unknown_device_is_refused() {
    let mut db = store_with_device();
    assert_eq!(db.create_registration_token("DEV9", T0), Err(StoreError::UnknownDevice));
    assert_eq!(
        db.insert_registration_token("TKN1".to_string(), "DEV9", T0, T0 + 1),
        Err(StoreError::UnknownDevice)
    );
    assert_eq!(db.token_count(), 0);
}

#[test]
fn token_expiry_beyond_the_clock_is_refused() {
    let mut db = store_with_device();
    assert_eq!(
        db.create_registration_token("DEV1", i64::MAX - 21599),
        Err(StoreError::TimestampOverflow)
    );
    assert_eq!(
        db.create_registration_token_with_ttl("DEV1", i64::MIN, -1),
        Err(StoreError::TimestampOverflow)
    );
    assert_eq!(
        db.create_registration_token_with_ttl("DEV9", i64::MAX, 1),
        Err(StoreError::TimestampOverflow)
    );
    assert_eq!(db.token_count(), 0);
    let token = db.create_registration_token("DEV1", i64::MAX - 21600).unwrap();
    assert_eq!(db.token(&token).unwrap().expires_at, i64::MAX);
}

#[test]
fn token_value_is_unique() {
    let mut db = store_with_device();
    assert_eq!(db.insert_registration_token("TKN1".to_string(), "DEV1", T0, T0 + 10), Ok(()));
    assert_eq!(
        db.insert_registration_token("TKN1".to_string(), "DEV1", T0 + 1, T0 + 99),
        Err(StoreError::DuplicateKey)
    );
    assert_eq!(db.token("TKN1").unwrap().expires_at, T0 + 10);
}

#[test]
fn rows_need_an_existing_device() {
    let mut db = Database::new();
    assert_eq!(db.create_device_settings("DEV1"), Err(StoreError::UnknownDevice));
    assert_eq!(
        db.create_device_credentials("DEV1", "device_a", &password("a")),
        Err(StoreError::UnknownDevice)
    );
    assert_eq!(db.create_device_status("DEV1", T0), Err(StoreError::UnknownDevice));
    assert_eq!(db.create_iphone_data("DEV1"), Err(StoreError::UnknownDevice));
    assert_eq!(db.upsert_device_status("DEV1", true, T0), Err(StoreError::UnknownDevice));
    assert_eq!(db.create_extension("DEV1"), Ok(()));
    assert_eq!(db.settings_count() + db.credentials_count() + db.status_count(), 0);
}

#[test]
fn a_device_has_one_row_per_table() {
    let mut db = store_with_device();
    assert_eq!(db.create_device_settings("DEV1"), Ok(()));
    assert_eq!(db.create_device_settings("DEV1"), Err(StoreError::DuplicateKey));
    assert_eq!(db.create_device_status("DEV1", T0), Ok(()));
    assert_eq!(db.create_device_status("DEV1", T0 + 1), Err(StoreError::DuplicateKey));
    assert_eq!(db.create_iphone_data("DEV1"), Ok(()));
    assert_eq!(db.create_iphone_data("DEV1"), Err(StoreError::DuplicateKey));
    assert_eq!(db.create_device_credentials("DEV1", "device_a", &password("a")), Ok(()));
    assert_eq!(
        db.create_device_credentials("DEV1", "device_b", &password("b")),
        Err(StoreError::DuplicateKey)
    );
    assert_eq!(db.status("DEV1").unwrap().updated_at, T0);
    assert_eq!(db.credentials("DEV1").unwrap().username, "device_a");
}

#[test]
fn username_is_unique_across_devices() {
    let mut db = store_with_device();
    assert_eq!(db.insert_device("DEV2".to_string(), "attic", "sensor", T0), Ok(()));
    assert!(!db.username_taken("device_a"));
    assert_eq!(db.create_device_credentials("DEV1", "device_a", &password("a")), Ok(()));
    assert!(db.username_taken("device_a"));
    assert_eq!(
        db.create_device_credentials("DEV2", "device_a", &password("b")),
        Err(StoreError::UsernameTaken)
    );
    assert!(db.credentials("DEV2").is_none());
    assert_eq!(db.create_device_credentials("DEV2", "device_b", &password("b")), Ok(()));
}

#[test]
fn credentials_keep_the_hash_and_not_the_secret() {
    let mut db = store_with_device();
    let secret = password("correct horse");
    assert_eq!(db.create_device_credentials("DEV1", "device_a", &secret), Ok(()));
    let row = db.credentials("DEV1").unwrap();
    assert_eq!(row.password_hash, secret.hash);
    assert_ne!(row.password_hash, "correct horse");
    assert!(db.verify("device_a", "correct horse"));
    assert!(!db.verify("device_a", "correct horse "));
    assert!(!db.verify("device_b", "correct horse"));
}

#[test]
fn presence_report_overwrites_and_repeats_without_effect() {
    let mut db = store_with_device();
    assert_eq!(db.upsert_device_status("DEV1", true, T0 + 5), Ok(()));
    assert_eq!(db.upsert_device_status("DEV1", true, T0 + 5), Ok(()));
    assert_eq!(db.status_count(), 1);
    assert!(db.status("DEV1").unwrap().online);
    assert_eq!(db.status("DEV1").unwrap().updated_at, T0 + 5);
    assert_eq!(db.upsert_device_status("DEV1", false, T0 + 9), Ok(()));
    assert!(!db.status("DEV1").unwrap().online);
    assert_eq!(db.status("DEV1").unwrap().updated_at, T0 + 9);
}

#[test]
fn marking_a_token_used_is_unconditional() {
    let mut db = store_with_device();
    assert_eq!(db.insert_registration_token("TKN1".to_string(), "DEV1", T0, T0 + 10), Ok(()));
    assert_eq!(db.mark_token_as_used("NOPE"), Ok(()));
    assert_eq!(db.token_count(), 1);
    assert!(!db.token("TKN1").unwrap().used);
    assert_eq!(db.mark_token_as_used("TKN1"), Ok(()));
    assert_eq!(db.mark_token_as_used("TKN1"), Ok(()));
    let row = db.token("TKN1").unwrap();
    assert!(row.used);
    assert_eq!((row.device_id.as_str(), row.created_at, row.expires_at), ("DEV1", T0, T0 + 10));
    assert_eq!(db.get_device_id_from_token("TKN1", T0 + 1), Err(StoreError::TokenInvalid));
}

#[test]
fn claim_goes_through_once_and_only_while_live() {
    let mut db = store_with_device();
    assert_eq!(db.insert_registration_token("TKN1".to_string(), "DEV1", T0, T0 + 10), Ok(()));
    assert_eq!(db.claim_token("TKN1", T0 + 10), Err(StoreError::TokenInvalid));
    assert!(!db.token("TKN1").unwrap().used);
    assert_eq!(db.claim_token("NOPE", T0), Err(StoreError::TokenInvalid));
    assert_eq!(db.claim_token("TKN1", T0 + 9), Ok("DEV1".to_string()));
    assert!(db.token("TKN1").unwrap().used);
    assert_eq!(db.claim_token("TKN1", T0 + 9), Err(StoreError::TokenInvalid));
}

#[test]
fn extension_row_depends_on_the_device_type() {
    let mut db = store_with_device();
    assert_eq!(db.insert_device("PHONE".to_string(), "pocket", "iphone", T0), Ok(()));
    assert!(!db.needs_iphone_data("DEV1"));
    assert!(db.needs_iphone_data("PHONE"));
    assert!(!db.needs_iphone_data("NOPE"));
    assert_eq!(db.create_extension("DEV1"), Ok(()));
    assert_eq!(db.create_extension("PHONE"), Ok(()));
    assert_eq!(db.create_extension("PHONE"), Err(StoreError::DuplicateKey));
    assert!(db.iphone_data("DEV1").is_none());
    assert_eq!(db.iphone_data("PHONE").unwrap().battery_level, None);
}

#[test]
fn provision_commits_all_rows_with_the_claim() {
    let mut db = store_with_device();
    assert_eq!(db.insert_registration_token("TKN1".to_string(), "DEV1", T0, T0 + 10), Ok(()));
    let secret = password("s3cret");
    assert_eq!(db.provision("TKN1", T0 + 3, "device_a", &secret), Ok("DEV1".to_string()));
    assert!(db.token("TKN1").unwrap().used);
    assert_eq!(db.credentials("DEV1").unwrap().password_hash, secret.hash);
    assert_eq!(db.status("DEV1").unwrap().updated_at, T0 + 3);
    assert!(db.settings("DEV1").unwrap().public_last_seen);
    assert_eq!(
        db.provision("TKN1", T0 + 4, "device_b", &secret),
        Err(StoreError::TokenInvalid)
    );
}

#[test]
fn table_keeps_one_row_per_key() {
    let mut table: Table<String> = Table::new();
    assert_eq!(table.len(), 0);
    assert!(table.insert("a".to_string(), "one".to_string()));
    assert!(table.insert("b".to_string(), "two".to_string()));
    assert!(!table.insert("a".to_string(), "three".to_string()));
    assert_eq!(table.len(), 2);
    assert_eq!(table.get("a"), Some(&"one".to_string()));
    assert_eq!(table.get("c"), None);
    assert!(table.contains_key("b"));
    assert_eq!(table.find("b"), Some(1));
    assert_eq!(table.key_at(1), Some(&"b".to_string()));
    assert_eq!(table.value_at(1), Some(&"two".to_string()));
    assert_eq!(table.key_at(2), None);
    assert_eq!(table.value_at(2), None);
    assert_eq!(table.remove("a"), Some("one".to_string()));
    assert_eq!(table.remove("a"), None);
    assert_eq!(table.len(), 1);
    assert_eq!(table.find("b"), Some(0));
    assert!(table.insert("a".to_string(), "three".to_string()));
    assert_eq!(table.get("a"), Some(&"three".to_string()));
}

#[test]
fn minting_stores_the_drawn_value_with_its_expiry() {
    let mut db = Database::new();
    assert_eq!(db.insert_device("DEV1".to_string(), "porch", "sensor", 0), Ok(()));
    assert_eq!(
        db.mint_token(Some("TKN1".to_string()), "DEV1", 1000, DEFAULT_TOKEN_TTL_SECS),
        Ok("TKN1".to_string())
    );
    assert_eq!(db.token_count(), 1);
    let row = db.token("TKN1").unwrap();
    assert_eq!(row.device_id, "DEV1");
    assert_eq!(row.created_at, 1000);
    assert_eq!(row.expires_at, 22600);
    assert!(!row.used);
}

#[test]
fn minting_refuses_in_the_order_of_its_tests() {
    let mut db = store_with_device();
    assert_eq!(
        db.mint_token(None, "DEV9", i64::MAX, 1),
        Err(StoreError::TimestampOverflow)
    );
    assert_eq!(db.mint_token(None, "DEV9", T0, 60), Err(StoreError::UnknownDevice));
    assert_eq!(
        db.mint_token(Some("TKN1".to_string()), "DEV9", T0, 60),
        Err(StoreError::UnknownDevice)
    );
    assert_eq!(db.mint_token(None, "DEV1", T0, 60), Err(StoreError::NoRandomness));
    assert_eq!(db.token_count(), 0);
    assert_eq!(db.mint_token(Some("TKN1".to_string()), "DEV1", T0, 60), Ok("TKN1".to_string()));
    assert_eq!(
        db.mint_token(Some("TKN1".to_string()), "DEV1", T0 + 1, 600),
        Err(StoreError::DuplicateKey)
    );
    assert_eq!(db.token("TKN1").unwrap().expires_at, T0 + 60);
    assert_eq!(db.token_count(), 1);
}

#[test]
fn minting_on_a_store_without_tokens_goes_through() {
    for _ in 0..16 {
        let mut db = store_with_device();
        let token = db.create_registration_token("DEV1", 1000).unwrap();
        assert_eq!(db.token(&token).unwrap().expires_at, 22600);
        assert_eq!(db.token_count(), 1);
    }
}

#[test]
fn enrolling_stores_the_device_under_the_drawn_identifier() {
    let mut db = Database::new();
    assert_eq!(
        db.enroll_device(Some("DEV1".to_string()), "porch", "sensor", T0),
        Ok("DEV1".to_string())
    );
    assert_eq!(db.device("DEV1").unwrap().name, "porch");
    assert_eq!(db.device("DEV1").unwrap().created_at, T0);
    assert_eq!(
        db.enroll_device(Some("DEV1".to_string()), "attic", "iphone", T0 + 1),
        Err(StoreError::DuplicateKey)
    );
    assert_eq!(db.enroll_device(None, "attic", "iphone", T0 + 1), Err(StoreError::NoRandomness));
    assert_eq!(db.device("DEV1").unwrap().name, "porch");
    assert_eq!(db.device_count(), 1);
}
