use chord_shifter::auth::hex::{decode, encode};
use chord_shifter::auth::{hash_password, hash_with_salt, verify_password};

#[test]
fn round_trip() {
    let hash = hash_password("hunter2").unwrap();
    assert!(verify_password("hunter2", &hash));
    assert!(!verify_password("wrong", &hash));
}

#[test]
fn two_hashes_of_same_password_differ() {
    let h1 = hash_password("abc").unwrap();
    let h2 = hash_password("abc").unwrap();
    // Salt is random so the stored strings must differ even for the same input
    assert_ne!(h1, h2);
    // …but both must still verify correctly
    assert!(verify_password("abc", &h1));
    assert!(verify_password("abc", &h2));
}

#[test]
fn stored_hash_has_salt_dollar_hash_shape() {
    let h = hash_password("secret").unwrap();
    let (salt, hash) = h.split_once('$').unwrap();
    assert_eq!(salt.len(), 32);
    assert_eq!(hash.len(), 64);
    assert!(h.chars().filter(|c| *c == '$').count() == 1);
    assert!(salt.chars().all(|c| c.is_ascii_hexdigit() && !c.is_ascii_uppercase()));
}

#[test]
fn verify_rejects_malformed_stored_strings() {
    assert!(!verify_password("x", "no-dollar-here"));
    assert!(!verify_password("x", "zz$00"));
    assert!(!verify_password("x", "00$zz"));
    assert!(!verify_password("x", "0$00"));
    // A salt shorter than 8 bytes is refused by Argon2.
    assert!(!verify_password("x", "0011$0011223344556677889900112233445566778899001122334455667788990011"));
}

#[test]
fn verify_rejects_a_changed_hash() {
    let h = hash_password("pw").unwrap();
    let mut changed = h.clone();
    let last = changed.pop().unwrap();
    changed.push(if last == '0' { '1' } else { '0' });
    assert!(!verify_password("pw", &changed));
    // The hash halves also decode when written in uppercase.
    assert!(verify_password("pw", &h.to_uppercase()));
}

#[test]
fn hex_encode_is_lowercase_pairs() {
    assert_eq!(encode(&[0xbe, 0xef, 0x00, 0x0a]), "beef000a");
    assert_eq!(encode(&[]), "");
}

#[test]
fn hex_decode_accepts_both_cases_and_round_trips() {
    assert_eq!(decode("BEef000A"), Ok(vec![0xbe, 0xef, 0x00, 0x0a]));
    let bytes: Vec<u8> = (0..=255).collect();
    assert_eq!(decode(&encode(&bytes)), Ok(bytes));
}

#[test]
fn hex_decode_rejects_odd_length_and_non_hex() {
    assert_eq!(decode("abc"), Err(()));
    assert_eq!(decode("zz"), Err(()));
    assert_eq!(decode("é0"), Err(()));
}

#[test]
fn hashing_under_a_given_salt_is_deterministic_and_verifies() {
    let salt: Vec<u8> = (1..=16).collect();
    let h1 = hash_with_salt("correct horse", &salt).unwrap();
    let h2 = hash_with_salt("correct horse", &salt).unwrap();
    assert_eq!(h1, h2);
    assert_eq!(h1.len(), 97);
    assert_eq!(h1.find('$'), Some(32));
    assert_eq!(&h1[..32], encode(&salt));
    assert!(h1[33..].chars().all(|c| c.is_ascii_hexdigit() && !c.is_ascii_uppercase()));
    // the hash half is a digest, not the password itself
    assert_ne!(&h1[33..], encode("correct horse".as_bytes()));
    assert!(verify_password("correct horse", &h1));
    assert!(!verify_password("correct horsf", &h1));
}

#[test]
fn another_salt_gives_another_hash() {
    let a = hash_with_salt("pw", &[0u8; 16]).unwrap();
    let b = hash_with_salt("pw", &[1u8; 16]).unwrap();
    assert_ne!(a, b);
    assert_ne!(&a[33..], &b[33..]);
    assert!(verify_password("pw", &a));
    assert!(verify_password("pw", &b));
}

#[test]
fn hex_decode_gives_high_nibble_first() {
    assert_eq!(decode("0aFf"), Ok(vec![0x0a, 0xff]));
    assert_eq!(decode("10"), Ok(vec![16]));
    assert_eq!(decode(""), Ok(vec![]));
    assert_eq!(decode("0g"), Err(()));
    assert_eq!(decode("0"), Err(()));
}
