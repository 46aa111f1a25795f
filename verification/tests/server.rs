use chord_shifter::server::hex;
use chord_shifter::server::{
    bearer_token, check_login, decrypt, email_sha256, encrypt, encrypt_with_nonce, normalize_email, token_expiry,
    registration_plan, smtp_available, validate_email, validate_password_strength, EmailCipher,
    LoginRejection,
};

#[test]
fn password_rules_report_the_first_broken_rule() {
    assert_eq!(
        validate_password_strength("Ab1!"),
        Err("Password must be at least 8 characters long.".to_string())
    );
    assert_eq!(
        validate_password_strength("abcdefg1!"),
        Err("Password must contain at least one uppercase letter.".to_string())
    );
    assert_eq!(
        validate_password_strength("Abcdefgh!"),
        Err("Password must contain at least one number.".to_string())
    );
    assert_eq!(
        validate_password_strength("Abcdefgh1"),
        Err("Password must contain at least one symbol (e.g. !@#$%).".to_string())
    );
    assert_eq!(validate_password_strength("Abcdefg1!"), Ok(()));
}

#[test]
fn password_length_counts_characters_and_uppercase_is_unicode() {
    // Seven characters (eight bytes) are too few.
    assert_eq!(
        validate_password_strength("Äbcde1!"),
        Err("Password must be at least 8 characters long.".to_string())
    );
    assert_eq!(
        validate_password_strength("A1!ééé"),
        Err("Password must be at least 8 characters long.".to_string())
    );
    assert_eq!(validate_password_strength("Äbcdef1!"), Ok(()));
    // A non-ASCII symbol does not count as a symbol.
    assert_eq!(
        validate_password_strength("Abcdefg1§"),
        Err("Password must contain at least one symbol (e.g. !@#$%).".to_string())
    );
}

#[test]
fn email_needs_at_and_dot() {
    assert_eq!(validate_email("a@b.c"), Ok(()));
    assert_eq!(validate_email("ab.c"), Err("Invalid email address.".to_string()));
    assert_eq!(validate_email("a@bc"), Err("Invalid email address.".to_string()));
}

#[test]
fn email_is_trimmed_and_lowercased() {
    assert_eq!(normalize_email("  Alice@Example.COM \n"), "alice@example.com");
}

#[test]
fn email_hash_is_hex_sha256() {
    assert_eq!(
        email_sha256("abc"),
        "ba7816bf8f01cfea414140de5dae2223b00361a396177a9cb410ff61f20015ad"
    );
}

#[test]
fn server_hex_messages() {
    assert_eq!(hex::encode(&[1, 255]), "01ff");
    assert_eq!(hex::decode("01FF"), Ok(vec![1, 255]));
    assert_eq!(
        hex::decode("abc"),
        Err("Hex string must have an even number of characters".to_string())
    );
    assert_eq!(
        hex::decode("zz"),
        Err("Hex string contains non-hex characters".to_string())
    );
}

fn cipher() -> EmailCipher {
    EmailCipher::from_key(&[7u8; 32]).unwrap()
}

#[test]
fn cipher_needs_a_32_byte_key() {
    assert!(EmailCipher::from_key(&[0u8; 31]).is_none());
    assert!(EmailCipher::from_key(&[0u8; 33]).is_none());
    assert!(EmailCipher::from_key(&[0u8; 32]).is_some());
}

#[test]
fn encrypt_then_decrypt_gives_the_email_back() {
    let c = cipher();
    let stored = encrypt(&c, "alice@example.com").unwrap();
    let (nonce, ct) = stored.split_once(':').unwrap();
    assert_eq!(nonce.len(), 24);
    // ciphertext = plaintext length + 16-byte tag, hex encoded
    assert_eq!(ct.len(), 2 * ("alice@example.com".len() + 16));
    assert_ne!(ct, hex::encode("alice@example.com".as_bytes()));
    assert_eq!(decrypt(&c, &stored), Ok("alice@example.com".to_string()));
}

#[test]
fn decrypt_reports_each_failure() {
    let c = cipher();
    assert_eq!(decrypt(&c, "nocolon"), Err("Invalid encrypted format".to_string()));
    assert_eq!(
        decrypt(&c, "abc:00"),
        Err("Hex string must have an even number of characters".to_string())
    );
    assert_eq!(
        decrypt(&c, "00:zz"),
        Err("Hex string contains non-hex characters".to_string())
    );
    assert_eq!(
        decrypt(&c, "0011:00"),
        Err("Invalid nonce length: expected 12 bytes, got 2".to_string())
    );
    let stored = encrypt(&c, "x@y.z").unwrap();
    let other = EmailCipher::from_key(&[8u8; 32]).unwrap();
    assert_eq!(
        decrypt(&other, &stored),
        Err("Decrypt error: aead::Error".to_string())
    );
}

#[test]
fn bearer_prefix_is_stripped() {
    assert_eq!(bearer_token("Bearer abc.def"), Some("abc.def"));
    assert_eq!(bearer_token("bearer abc"), None);
    assert_eq!(bearer_token("Basic abc"), None);
    assert_eq!(bearer_token("Bearer "), Some(""));
}

#[test]
fn tokens_last_thirty_days() {
    assert_eq!(token_expiry(1_000), 1_000 + 30 * 24 * 3600);
}

#[test]
fn login_needs_verified_email_and_right_password() {
    let h = chord_shifter::auth::hash_password("Secret1!").unwrap();
    assert_eq!(check_login(0, "Secret1!", &h), Err(LoginRejection::NotVerified));
    assert_eq!(check_login(1, "wrong", &h), Err(LoginRejection::InvalidCredentials));
    assert_eq!(check_login(1, "Secret1!", &h), Ok(()));
    assert_eq!(
        LoginRejection::NotVerified.message(),
        "Please verify your email address before logging in."
    );
    assert_eq!(LoginRejection::InvalidCredentials.message(), "Invalid credentials.");
}

#[test]
fn registration_with_and_without_email() {
    let with_mail = registration_plan(smtp_available(true, true, true, true));
    assert_eq!(with_mail.verified_flag, 0);
    assert!(with_mail.keep_token);
    assert_eq!(
        with_mail.message,
        "Registration successful. Please check your email to verify your account."
    );
    let partial = registration_plan(smtp_available(true, true, false, true));
    assert_eq!(partial.verified_flag, 1);
    assert!(!partial.keep_token);
    assert_eq!(partial.message, "Registration successful. You can now log in.");
}

#[test]
fn encrypting_under_a_given_nonce_is_deterministic_and_decrypts() {
    let c = cipher();
    let nonce = [3u8; 12];
    let a = encrypt_with_nonce(&c, &nonce, "bob@example.org").unwrap();
    let b = encrypt_with_nonce(&c, &nonce, "bob@example.org").unwrap();
    assert_eq!(a, b);
    let (n, ct) = a.split_once(':').unwrap();
    assert_eq!(n, "030303030303030303030303");
    assert_eq!(ct.len(), 2 * ("bob@example.org".len() + 16));
    assert_ne!(&ct[..30], hex::encode("bob@example.org".as_bytes()));
    assert_eq!(decrypt(&c, &a), Ok("bob@example.org".to_string()));
    let other = encrypt_with_nonce(&c, &[4u8; 12], "bob@example.org").unwrap();
    assert_ne!(a, other);
    assert_eq!(decrypt(&c, &other), Ok("bob@example.org".to_string()));
}
