use provisioning::auth::{verify_password, Password};
use provisioning::config::Config;
use provisioning::db::Database;
use provisioning::model::StoreError;
use provisioning::web::{
    classify, redeem, register_with_token, register_with_token_at_cost, RegistrationError,
    RegistrationRequest, RegistrationResponse, MAX_GENERATION_ATTEMPTS,
};

const T0: i64 = 1_700_000_000;
const COST: u32 = 4;

fn config() -> Config {
    Config {
        mqtt_host: "broker.example".to_string(),
        mqtt_port: 1883,
        database_path: "devices.db".to_string(),
    }
}

fn store_with_token(device_type: &str) -> Database {
    let mut db = Database::new();
    assert_eq!(db.insert_device("DEV1".to_string(), "porch", device_type, T0), Ok(()));
    assert_eq!(
        db.insert_registration_token("TKN1".to_string(), "DEV1", T0, T0 + 21600),
        Ok(())
    );
    db
}

fn request(token: &str) -> RegistrationRequest {
    RegistrationRequest { token: token.to_string() }
}

fn register(
    db: &mut Database,
    token: &str,
    now: i64,
) -> Result<RegistrationResponse, RegistrationError> {
    register_with_token_at_cost(db, &config(), request(token), now, COST)
}

fn is_lower_hex(text: &str) -> bool {
    text.chars().all(|c| matches!(c, '0'..='9' | 'a'..='f'))
}

fn fixed_password(plain: &str) -> Password {
    Password::from_plain(plain.to_string(), COST).ok().unwrap()
}

#[test]
fn first_redemption_succeeds_and_second_is_refused() {
    let mut db = store_with_token("sensor");
    let response = register(&mut db, "TKN1", T0 + 10).ok().unwrap();
    assert!(response.username.starts_with("device_"));
    assert_eq!(response.username.len(), 39);
    assert!(is_lower_hex(&response.username[7..]));
    assert!(response.password.len() >= 20);
    assert_eq!(response.mqtt_host, "broker.example");
    assert_eq!(response.mqtt_port, 1883);

    let second = register(&mut db, "TKN1", T0 + 20).err().unwrap();
    assert_eq!(second, RegistrationError::TokenInvalid);
    assert_eq!(second.status_code(), 400);
    assert_eq!(second.message(), "Invalid or expired token");
}

#[test]
fn expired_token_is_refused_though_never_used() {
    let mut db = store_with_token("sensor");
    let refused = register(&mut db, "TKN1", T0 + 21601).err().unwrap();
    assert_eq!(refused.status_code(), 400);
    assert_eq!(refused.message(), "Invalid or expired token");
    assert!(!db.token("TKN1").unwrap().used);
    assert!(db.credentials("DEV1").is_none());
}

#[test]
fn token_is_refused_from_the_second_of_its_expiry() {
    let mut db = store_with_token("sensor");
    assert_eq!(
        register(&mut db, "TKN1", T0 + 21600).err(),
        Some(RegistrationError::TokenInvalid)
    );
    assert!(register(&mut db, "TKN1", T0 + 21599).is_ok());
}

#[test]
fn unknown_token_is_refused_like_an_expired_one() {
    let mut db = store_with_token("sensor");
    let refused = register(&mut db, "NOPE", T0 + 10).err().unwrap();
    assert_eq!(refused, RegistrationError::TokenInvalid);
    assert_eq!(refused.message(), "Invalid or expired token");
}

#[test]
fn token_stays_spent_after_other_writes() {
    let mut db = store_with_token("sensor");
    assert!(register(&mut db, "TKN1", T0 + 10).is_ok());
    assert_eq!(db.insert_device("DEV2".to_string(), "attic", "sensor", T0 + 11), Ok(()));
    assert_eq!(
        db.insert_registration_token("TKN2".to_string(), "DEV1", T0 + 12, T0 + 99999),
        Ok(())
    );
    assert_eq!(db.mark_token_as_used("TKN1"), Ok(()));
    assert_eq!(db.upsert_device_status("DEV1", true, T0 + 13), Ok(()));
    for later in [T0 + 14, T0 + 21599, T0 + 21600, i64::MAX] {
        assert_eq!(
            register(&mut db, "TKN1", later).err(),
            Some(RegistrationError::TokenInvalid)
        );
    }
}

#[test]
fn competing_redemptions_have_one_winner() {
    let mut db = store_with_token("sensor");
    let mut wins = 0;
    let mut refusals = 0;
    for i in 0..8 {
        match register(&mut db, "TKN1", T0 + 10 + i) {
            Ok(_) => wins += 1,
            Err(e) => {
                assert_eq!(e, RegistrationError::TokenInvalid);
                refusals += 1;
            }
        }
    }
    assert_eq!(wins, 1);
    assert_eq!(refusals, 7);
    assert_eq!(db.credentials_count(), 1);
    assert_eq!(db.status_count(), 1);
    assert_eq!(db.settings_count(), 1);
    assert!(db.credentials("DEV1").is_some());
    assert!(db.status("DEV1").is_some());
    assert!(db.settings("DEV1").is_some());
}

#[test]
fn issued_secret_verifies_and_only_its_hash_is_stored() {
    let mut db = store_with_token("sensor");
    let response = register(&mut db, "TKN1", T0 + 10).ok().unwrap();
    assert!(db.verify(&response.username, &response.password));
    assert!(!db.verify(&response.username, "not the secret"));
    assert!(!db.verify(&response.username, ""));
    assert!(!db.verify("device_unknown", &response.password));

    let stored = db.credentials("DEV1").unwrap();
    assert_eq!(stored.username, response.username);
    assert_ne!(stored.password_hash, response.password);
    assert_eq!(stored.password_hash.len(), 60);
    assert!(stored.password_hash.starts_with("$2b$04$"));
    assert!(!stored.password_hash.contains(&response.password));
    assert!(!stored.username.contains(&response.password));
    assert!(verify_password(&response.password, &stored.password_hash));
}

#[test]
fn failure_at_the_status_row_leaves_no_rows_and_frees_the_token() {
    let mut db = store_with_token("sensor");
    assert_eq!(db.create_device_status("DEV1", T0 + 1), Ok(()));
    let refused = register(&mut db, "TKN1", T0 + 10).err().unwrap();
    assert_eq!(refused, RegistrationError::ProvisioningFailed);
    assert_eq!(refused.status_code(), 500);
    assert_eq!(refused.message(), "Registration Failed");

    assert!(db.settings("DEV1").is_none());
    assert!(db.credentials("DEV1").is_none());
    assert_eq!(db.settings_count(), 0);
    assert_eq!(db.credentials_count(), 0);
    assert_eq!(db.status_count(), 1);
    assert_eq!(db.status("DEV1").unwrap().updated_at, T0 + 1);
    assert!(!db.token("TKN1").unwrap().used);
    assert_eq!(db.get_device_id_from_token("TKN1", T0 + 10), Ok("DEV1".to_string()));
}

#[test]
fn failure_at_any_row_rolls_the_whole_redemption_back() {
    let password = fixed_password("s3cret");

    let mut db = store_with_token("iphone");
    assert_eq!(db.create_device_settings("DEV1"), Ok(()));
    assert_eq!(
        db.provision("TKN1", T0 + 10, "device_a", &password),
        Err(StoreError::DuplicateKey)
    );
    assert!(!db.token("TKN1").unwrap().used);
    assert_eq!((db.credentials_count(), db.status_count(), db.iphone_data_count()), (0, 0, 0));

    let mut db = store_with_token("iphone");
    assert_eq!(db.create_device_credentials("DEV1", "device_b", &password), Ok(()));
    assert_eq!(
        db.provision("TKN1", T0 + 10, "device_a", &password),
        Err(StoreError::DuplicateKey)
    );
    assert!(!db.token("TKN1").unwrap().used);
    assert_eq!((db.settings_count(), db.status_count(), db.iphone_data_count()), (0, 0, 0));
    assert_eq!(db.credentials("DEV1").unwrap().username, "device_b");

    let mut db = store_with_token("iphone");
    assert_eq!(db.create_iphone_data("DEV1"), Ok(()));
    assert_eq!(
        db.provision("TKN1", T0 + 10, "device_a", &password),
        Err(StoreError::DuplicateKey)
    );
    assert!(!db.token("TKN1").unwrap().used);
    assert_eq!((db.settings_count(), db.credentials_count(), db.status_count()), (0, 0, 0));
    assert_eq!(db.iphone_data_count(), 1);
}

#[test]
fn refused_redemption_can_be_tried_again_with_the_same_token() {
    let mut db = store_with_token("sensor");
    assert_eq!(db.insert_device("DEV2".to_string(), "attic", "sensor", T0), Ok(()));
    assert_eq!(
        db.create_device_credentials("DEV2", "device_taken", &fixed_password("x")),
        Ok(())
    );
    let refused = redeem(
        &mut db,
        &config(),
        "TKN1",
        T0 + 10,
        "device_taken".to_string(),
        fixed_password("first"),
    );
    assert_eq!(refused.err(), Some(StoreError::UsernameTaken));
    assert!(db.settings("DEV1").is_none());
    assert!(!db.token("TKN1").unwrap().used);

    let accepted = redeem(
        &mut db,
        &config(),
        "TKN1",
        T0 + 11,
        "device_free".to_string(),
        fixed_password("second"),
    )
    .ok()
    .unwrap();
    assert_eq!(accepted.username, "device_free");
    assert_eq!(accepted.password, "second");
    assert!(db.token("TKN1").unwrap().used);
    assert!(db.verify("device_free", "second"));
    assert!(!db.verify("device_free", "first"));
}

#[test]
fn two_redemptions_issue_distinct_usernames() {
    let mut db = store_with_token("sensor");
    assert_eq!(db.insert_device("DEV2".to_string(), "attic", "sensor", T0), Ok(()));
    assert_eq!(
        db.insert_registration_token("TKN2".to_string(), "DEV2", T0, T0 + 21600),
        Ok(())
    );
    let first = register(&mut db, "TKN1", T0 + 10).ok().unwrap();
    let second = register(&mut db, "TKN2", T0 + 10).ok().unwrap();
    assert_ne!(first.username, second.username);
    assert_ne!(first.password, second.password);
    assert_eq!(db.credentials_count(), 2);
}

#[test]
fn second_token_of_a_provisioned_device_fails_provisioning() {
    let mut db = store_with_token("sensor");
    assert_eq!(
        db.insert_registration_token("TKN2".to_string(), "DEV1", T0, T0 + 21600),
        Ok(())
    );
    assert!(register(&mut db, "TKN1", T0 + 10).is_ok());
    let before = db.credentials("DEV1").unwrap().username.clone();
    assert_eq!(
        register(&mut db, "TKN2", T0 + 11).err(),
        Some(RegistrationError::ProvisioningFailed)
    );
    assert!(!db.token("TKN2").unwrap().used);
    assert_eq!(db.credentials("DEV1").unwrap().username, before);
}

#[test]
fn redemption_writes_default_rows() {
    let mut db = store_with_token("sensor");
    assert!(register(&mut db, "TKN1", T0 + 10).is_ok());
    let settings = db.settings("DEV1").unwrap();
    assert!(!settings.visible);
    assert!(!settings.public_battery);
    assert!(!settings.public_activity);
    assert!(settings.public_last_seen);
    let status = db.status("DEV1").unwrap();
    assert!(!status.online);
    assert_eq!(status.updated_at, T0 + 10);
    assert!(db.token("TKN1").unwrap().used);
    assert!(db.iphone_data("DEV1").is_none());
}

#[test]
fn iphone_gets_its_battery_row() {
    let mut db = store_with_token("iphone");
    assert!(register(&mut db, "TKN1", T0 + 10).is_ok());
    assert_eq!(db.iphone_data("DEV1").unwrap().battery_level, None);
    assert_eq!(db.iphone_data_count(), 1);
}

#[test]
fn registration_at_the_default_work_factor() {
    let mut db = store_with_token("sensor");
    let response = register_with_token(&mut db, &config(), request("TKN1"), T0 + 10)
        .ok()
        .unwrap();
    let stored = db.credentials("DEV1").unwrap();
    assert!(stored.password_hash.starts_with("$2b$12$"));
    assert!(db.verify(&response.username, &response.password));
}

#[test]
fn work_factor_out_of_range_fails_provisioning() {
    for cost in [0, 3, 32] {
        let mut db = store_with_token("sensor");
        let refused =
            register_with_token_at_cost(&mut db, &config(), request("TKN1"), T0 + 10, cost);
        assert_eq!(refused.err(), Some(RegistrationError::ProvisioningFailed));
        assert!(!db.token("TKN1").unwrap().used);
        assert!(db.credentials("DEV1").is_none());
    }
}

#[test]
fn store_errors_reach_the_caller_as_two_kinds() {
    assert_eq!(classify(StoreError::TokenInvalid), RegistrationError::TokenInvalid);
    for e in [
        StoreError::UnknownDevice,
        StoreError::DuplicateKey,
        StoreError::UsernameTaken,
        StoreError::TimestampOverflow,
        StoreError::NoRandomness,
    ] {
        assert_eq!(classify(e), RegistrationError::ProvisioningFailed);
    }
    assert_eq!(RegistrationError::TokenInvalid.status_code(), 400);
    assert_eq!(RegistrationError::ProvisioningFailed.status_code(), 500);
    assert_eq!(RegistrationError::ProvisioningFailed.message(), "Registration Failed");
    assert_eq!(MAX_GENERATION_ATTEMPTS, 3);
}

#[test]
fn registration_stores_a_hash_made_at_the_work_factor_asked_for() {
    for (cost, opening) in [(4, "$2b$04$"), (7, "$2b$07$"), (10, "$2b$10$")] {
        let mut db = store_with_token("sensor");
        let response =
            register_with_token_at_cost(&mut db, &config(), request("TKN1"), T0 + 10, cost)
                .ok()
                .unwrap();
        let stored = db.credentials("DEV1").unwrap();
        assert_eq!(&stored.password_hash[..7], opening);
        assert!(db.verify(&response.username, &response.password));
    }
    let mut db = store_with_token("sensor");
    assert!(register_with_token(&mut db, &config(), request("TKN1"), T0 + 10).is_ok());
    assert_eq!(&db.credentials("DEV1").unwrap().password_hash[..7], "$2b$12$");
}
