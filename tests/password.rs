use rudrist_backend::password::{verify_password, CredentialHasher, HashError, MAX_PASSWORD_CHARS, RECOMMENDED_ROUNDS};

const KNOWN_RECORD: &str =
    "$pbkdf2-sha256$i=1000,l=32$c2FsdHNhbHRzYWx0c2FsdA$8W5yLmqTx7pmJ5+3qp/ZOQP9vTuo+lMNfP/lMdTb9u8";

fn fast() -> CredentialHasher {
    CredentialHasher::with_rounds(1000)
}

#[test]
fn hash_then_verify_same_password() {
    let record = fast().hash("s3cret").unwrap();
    assert!(verify_password("s3cret", &record));
}

#[test]
fn verify_with_other_password_fails() {
    let record = fast().hash("s3cret").unwrap();
    assert!(!verify_password("wrong", &record));
    assert!(!verify_password("s3cret ", &record));
    assert!(!verify_password("", &record));
}

#[test]
fn verify_against_corrupted_record_is_false() {
    for bad in [
        "",
        "s3cret",
        "not a hash",
        "$pbkdf2-sha256$",
        "$pbkdf2-sha256$i=1000,l=32$c2FsdHNhbHRzYWx0c2FsdA$",
        "$unknown$i=1$c2FsdHNhbHRzYWx0c2FsdA$8W5yLmqTx7pmJ5+3qp/ZOQP9vTuo+lMNfP/lMdTb9u8",
        "$pbkdf2-sha256$i=1000,l=31$c2FsdHNhbHRzYWx0c2FsdA$8W5yLmqTx7pmJ5+3qp/ZOQP9vTuo+lMNfP/lMdTb9u8",
    ] {
        assert!(!verify_password("s3cret", bad), "{}", bad);
    }
}

#[test]
fn verify_known_pbkdf2_record() {
    assert!(verify_password("s3cret", KNOWN_RECORD));
    assert!(!verify_password("s3creT", KNOWN_RECORD));
}

#[test]
fn hash_record_is_self_describing() {
    let record = fast().hash("s3cret").unwrap();
    assert!(record.starts_with("$pbkdf2-sha256$i=1000,l=32$"), "{}", record);
    assert_ne!(record, "s3cret");
    assert_eq!(record.split('$').count(), 5);
}

#[test]
fn hashes_of_one_password_use_fresh_salts() {
    let a = fast().hash("s3cret").unwrap();
    let b = fast().hash("s3cret").unwrap();
    assert_ne!(a, b);
    assert!(verify_password("s3cret", &a));
    assert!(verify_password("s3cret", &b));
}

#[test]
fn hash_refuses_empty_and_overlong_passwords() {
    assert_eq!(fast().hash(""), Err(HashError::InvalidInput));
    let long = "x".repeat(MAX_PASSWORD_CHARS + 1);
    assert_eq!(fast().hash(&long), Err(HashError::InvalidInput));
    let longest = "é".repeat(MAX_PASSWORD_CHARS);
    let record = fast().hash(&longest).unwrap();
    assert!(verify_password(&longest, &record));
}

#[test]
fn hasher_configuration() {
    assert_eq!(CredentialHasher::new().rounds, RECOMMENDED_ROUNDS);
    assert_eq!(RECOMMENDED_ROUNDS, 600000);
    assert_eq!(CredentialHasher::with_rounds(5).rounds, 5);
}

#[test]
fn hash_with_salt_matches_reference_record() {
    let record = fast().hash_with_salt("s3cret", b"saltsaltsaltsalt").unwrap();
    assert_eq!(record, KNOWN_RECORD);
}

#[test]
fn hash_with_salt_is_deterministic_and_refuses_bad_input() {
    let salt = [1u8; 16];
    assert_eq!(fast().hash_with_salt("pw", &salt), fast().hash_with_salt("pw", &salt));
    assert_ne!(fast().hash_with_salt("pw", &salt), fast().hash_with_salt("pw", &[2u8; 16]));
    assert_eq!(fast().hash_with_salt("", &salt), Err(HashError::InvalidInput));
    let long = "x".repeat(MAX_PASSWORD_CHARS + 1);
    assert_eq!(fast().hash_with_salt(&long, &salt), Err(HashError::InvalidInput));
}
