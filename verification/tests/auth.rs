use provisioning::auth::{
    generate_token, generate_username, is_accepted, token_from_bytes, username_from,
    username_from_bytes, verify_password, Credentials, Password, DEFAULT_COST, MAX_COST, MIN_COST,
};

fn is_hyphenated_lower_hex(text: &str) -> bool {
    text.len() == 36
        && text.chars().enumerate().all(|(i, c)| match i {
            8 | 13 | 18 | 23 => c == '-',
            _ => matches!(c, '0'..='9' | 'a'..='f'),
        })
}

#[test]
fn token_is_a_random_hyphenated_uuid() {
    let token = generate_token().unwrap();
    assert!(is_hyphenated_lower_hex(&token));
    assert_eq!(token.as_bytes()[14], b'4');
    assert!(matches!(token.as_bytes()[19], b'8' | b'9' | b'a' | b'b'));
    let parsed = uuid::Uuid::parse_str(&token).unwrap();
    assert_eq!(parsed.get_version_num(), 4);
    assert_eq!(parsed.to_string(), token);
    assert_ne!(generate_token().unwrap(), token);
}

#[test]
fn username_is_the_prefix_and_32_digits() {
    let name = generate_username().unwrap();
    assert_eq!(name.len(), 39);
    assert_eq!(&name[..7], "device_");
    let digits = &name[7..];
    assert!(digits.chars().all(|c| matches!(c, '0'..='9' | 'a'..='f')));
    assert_eq!(digits.as_bytes()[12], b'4');
    assert!(matches!(digits.as_bytes()[16], b'8' | b'9' | b'a' | b'b'));
    let parsed = uuid::Uuid::parse_str(digits).unwrap();
    assert_eq!(parsed.simple().to_string(), digits);
    assert_ne!(generate_username().unwrap(), name);
}

#[test]
fn username_is_built_from_given_digits() {
    assert_eq!(username_from("0123"), "device_0123");
    assert_eq!(username_from(""), "device_");
}

#[test]
fn work_factors_are_those_of_bcrypt() {
    assert_eq!(DEFAULT_COST, bcrypt::DEFAULT_COST);
    assert_eq!(DEFAULT_COST, 12);
    assert_eq!((MIN_COST, MAX_COST), (4, 31));
}

#[test]
fn fresh_password_is_a_uuid_with_a_matching_hash() {
    let password = Password::with_cost(4).ok().unwrap();
    assert!(is_hyphenated_lower_hex(&password.plain));
    assert!(password.plain.len() >= 20);
    assert_eq!(password.hash.len(), 60);
    assert!(password.hash.starts_with("$2b$04$"));
    assert_ne!(password.hash, password.plain);
    assert!(verify_password(&password.plain, &password.hash));
    assert_eq!(bcrypt::verify(&password.plain, &password.hash).ok(), Some(true));
    let other = Password::with_cost(4).ok().unwrap();
    assert_ne!(other.plain, password.plain);
    assert!(!verify_password(&other.plain, &password.hash));
}

#[test]
fn default_password_uses_the_default_work_factor() {
    let password = Password::new().ok().unwrap();
    assert!(password.hash.starts_with("$2b$12$"));
    assert!(verify_password(&password.plain, &password.hash));
}

#[test]
fn given_plaintext_is_kept_and_hashed() {
    let password = Password::from_plain("correct horse".to_string(), 5).ok().unwrap();
    assert_eq!(password.plain, "correct horse");
    assert!(password.hash.starts_with("$2b$05$"));
    assert!(verify_password("correct horse", &password.hash));
    assert!(!verify_password("correct horsf", &password.hash));
    assert!(!verify_password("", &password.hash));
    let again = Password::from_plain("correct horse".to_string(), 5).ok().unwrap();
    assert_ne!(again.hash, password.hash);
    assert!(verify_password("correct horse", &again.hash));
}

#[test]
fn work_factor_out_of_range_is_refused() {
    for cost in [0, 3, 32, u32::MAX] {
        assert!(Password::from_plain("secret".to_string(), cost).is_err());
        assert!(Password::with_cost(cost).is_err());
    }
    assert!(Password::from_plain("secret".to_string(), 4).is_ok());
}

#[test]
fn malformed_hash_verifies_nothing() {
    assert!(!verify_password("secret", "secret"));
    assert!(!verify_password("secret", ""));
    assert!(!verify_password("", ""));
    assert!(!verify_password(
        "secret",
        "$2b$03$abcdefghijklmnopqrstuuabcdefghijklmnopqrstuvwxyz01234"
    ));
}

#[test]
fn known_hash_verifies_its_password() {
    let hash = "$2y$05$bvIG6Nmid91Mu9RcmmWZfO5HJIMCT8riNW0hEp8f6/FuA2/mHZFpe";
    assert!(verify_password("password", hash));
    assert!(!verify_password("passw0rd", hash));
    assert_eq!(bcrypt::verify("password", hash).ok(), Some(true));
}

#[test]
fn only_a_definite_match_is_accepted() {
    assert!(is_accepted(Some(true)));
    assert!(!is_accepted(Some(false)));
    assert!(!is_accepted(None));
}

#[test]
fn issued_credentials_hold_a_username_and_a_verifying_secret() {
    let issued = Credentials::generate(4).ok().unwrap();
    assert!(issued.username.starts_with("device_"));
    assert_eq!(issued.username.len(), 39);
    assert!(is_hyphenated_lower_hex(&issued.password.plain));
    assert!(verify_password(&issued.password.plain, &issued.password.hash));
    assert_ne!(issued.password.plain, issued.password.hash);
    assert!(Credentials::generate(3).is_err());
    assert!(Credentials::generate(32).is_err());
}

#[test]
fn password_is_assembled_from_what_hashing_gave() {
    let hashed = bcrypt::hash("secret", 4);
    let hash = hashed.as_ref().ok().unwrap().clone();
    let password = Password::from_hashed("secret".to_string(), hashed).ok().unwrap();
    assert_eq!(password.plain, "secret");
    assert_eq!(password.hash, hash);
    assert!(Password::from_hashed("secret".to_string(), bcrypt::hash("secret", 3)).is_err());
}

#[test]
fn hashing_error_is_handed_on_unchanged() {
    for cost in [0, 3, 32, 99] {
        let expected = format!("{:?}", bcrypt::BcryptError::CostNotAllowed(cost));
        let handed = Password::from_hashed("secret".to_string(), bcrypt::hash("secret", cost));
        assert_eq!(format!("{:?}", handed.err().unwrap()), expected);
        let refused = Password::from_plain("secret".to_string(), cost);
        assert_eq!(format!("{:?}", refused.err().unwrap()), expected);
        let refused = Password::with_cost(cost);
        assert_eq!(format!("{:?}", refused.err().unwrap()), expected);
    }
}

#[test]
fn token_is_the_text_of_the_drawn_bytes() {
    assert_eq!(token_from_bytes([0u8; 16]), "00000000-0000-4000-8000-000000000000");
    assert_eq!(token_from_bytes([0xffu8; 16]), "ffffffff-ffff-4fff-bfff-ffffffffffff");
    let bytes = [
        0x01, 0x23, 0x45, 0x67, 0x89, 0xab, 0xcd, 0xef, 0x10, 0x32, 0x54, 0x76, 0x98, 0xba, 0xdc,
        0xfe,
    ];
    assert_eq!(token_from_bytes(bytes), "01234567-89ab-4def-9032-547698badcfe");
    assert_eq!(
        token_from_bytes(bytes),
        uuid::Builder::from_random_bytes(bytes).into_uuid().to_string()
    );
    let mut other = bytes;
    other[8] = 0x70;
    assert_eq!(token_from_bytes(other), "01234567-89ab-4def-b032-547698badcfe");
}

#[test]
fn username_is_the_prefix_and_the_digits_of_the_drawn_bytes() {
    assert_eq!(username_from_bytes([0u8; 16]), "device_00000000000040008000000000000000");
    assert_eq!(username_from_bytes([0xffu8; 16]), "device_ffffffffffff4fffbfffffffffffffff");
    let bytes = [
        0x01, 0x23, 0x45, 0x67, 0x89, 0xab, 0xcd, 0xef, 0x10, 0x32, 0x54, 0x76, 0x98, 0xba, 0xdc,
        0xfe,
    ];
    assert_eq!(username_from_bytes(bytes), "device_0123456789ab4def9032547698badcfe");
    assert_eq!(
        &username_from_bytes(bytes)[7..],
        uuid::Builder::from_random_bytes(bytes).into_uuid().simple().to_string()
    );
}

#[test]
fn hash_is_written_in_the_alphabet_of_bcrypt_and_holds_no_secret() {
    for _ in 0..8 {
        let password = Password::with_cost(4).ok().unwrap();
        assert!(password.hash[7..]
            .chars()
            .all(|c| c == '.' || c == '/' || c.is_ascii_alphanumeric()));
        assert!(!password.hash.contains('-'));
        assert!(!password.hash.contains(&password.plain));
    }
    let issued = Credentials::generate(4).ok().unwrap();
    assert!(!issued.username.contains(&issued.password.plain));
    assert!(!issued.password.hash.contains(&issued.password.plain));
}

#[test]
fn hash_carries_the_work_factor_it_was_made_at() {
    for (cost, opening) in [(4, "$2b$04$"), (9, "$2b$09$"), (10, "$2b$10$")] {
        let password = Password::from_plain("secret".to_string(), cost).ok().unwrap();
        assert_eq!(&password.hash[..7], opening);
        assert_eq!(password.hash.len(), 60);
        assert!(verify_password("secret", &password.hash));
    }
    let password = Password::with_cost(7).ok().unwrap();
    assert_eq!(&password.hash[..7], "$2b$07$");
    let issued = Credentials::generate(6).ok().unwrap();
    assert_eq!(&issued.password.hash[..7], "$2b$06$");
    let default = Password::new().ok().unwrap();
    assert_eq!(&default.hash[..7], format!("$2b${:02}$", DEFAULT_COST));
}
