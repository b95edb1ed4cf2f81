use rand_chacha::ChaCha8Rng;
use rand_core::SeedableRng;
use rudrist_backend::token::{SessionToken, TokenParseError};
use std::collections::HashSet;

#[test]
fn cookie_value_is_decimal_text() {
    assert_eq!(SessionToken(0).into_cookie_value(), "0");
    assert_eq!(SessionToken(7).into_cookie_value(), "7");
    assert_eq!(SessionToken(10).into_cookie_value(), "10");
    assert_eq!(SessionToken(1234567890).into_cookie_value(), "1234567890");
    assert_eq!(
        SessionToken(u128::MAX).into_cookie_value(),
        "340282366920938463463374607431768211455"
    );
}

#[test]
fn database_value_is_little_endian() {
    let mut expected = vec![0u8; 16];
    expected[0] = 0x02;
    expected[1] = 0x01;
    assert_eq!(SessionToken(0x0102).into_database_value(), expected);
    assert_eq!(SessionToken(u128::MAX).into_database_value(), vec![0xffu8; 16]);
    let mut top = vec![0u8; 16];
    top[15] = 0x80;
    assert_eq!(SessionToken(1u128 << 127).into_database_value(), top);
}

#[test]
fn cookie_round_trip_examples() {
    for v in [0u128, 1, 9, 10, 99, 100, 12345678901234567890, u128::MAX - 1, u128::MAX] {
        let t = SessionToken(v);
        assert_eq!(SessionToken::from_cookie_value(&t.into_cookie_value()), Ok(t));
        assert_eq!(SessionToken::to_token(t.into_cookie_value()), Ok(t));
    }
}

#[test]
fn database_round_trip_examples() {
    for v in [0u128, 1, 0xdeadbeef, u128::MAX] {
        let t = SessionToken(v);
        assert_eq!(SessionToken::from_database_value(&t.into_database_value()), Some(t));
    }
    assert_eq!(SessionToken::from_database_value(&[1u8, 2, 3]), None);
    assert_eq!(SessionToken::from_database_value(&[0u8; 17]), None);
}

#[test]
fn malformed_cookie_values_are_refused() {
    for bad in [
        "",
        "+",
        "12a",
        "-1",
        " 1",
        "1 ",
        "++1",
        "0x10",
        "١٢",
        "340282366920938463463374607431768211456",
        "999999999999999999999999999999999999999999",
    ] {
        assert_eq!(SessionToken::from_cookie_value(bad), Err(TokenParseError), "{}", bad);
    }
}

#[test]
fn cookie_values_with_sign_or_leading_zeros_are_read() {
    assert_eq!(SessionToken::from_cookie_value("+42"), Ok(SessionToken(42)));
    assert_eq!(SessionToken::from_cookie_value("007"), Ok(SessionToken(7)));
    assert_eq!(
        SessionToken::from_cookie_value("340282366920938463463374607431768211455"),
        Ok(SessionToken(u128::MAX))
    );
}

#[test]
fn token_from_random_bytes_reads_little_endian() {
    let mut bytes = [0u8; 16];
    bytes[0] = 1;
    assert_eq!(SessionToken::from_random_bytes(bytes), SessionToken(1));
    bytes[15] = 1;
    assert_eq!(SessionToken::from_random_bytes(bytes), SessionToken(1 + (1u128 << 120)));
}

#[test]
fn generated_tokens_follow_the_seeded_stream() {
    let mut a = ChaCha8Rng::seed_from_u64(42);
    let mut b = ChaCha8Rng::seed_from_u64(42);
    let t1 = SessionToken::generate_new(&mut a);
    let t2 = SessionToken::generate_new(&mut a);
    assert_eq!(SessionToken::generate_new(&mut b), t1);
    assert_ne!(t1, t2);
}

#[test]
fn generated_tokens_do_not_collide() {
    let mut random = ChaCha8Rng::seed_from_u64(2024);
    let n = 1_000_000;
    let mut cookies: HashSet<String> = HashSet::with_capacity(n);
    let mut keys: HashSet<Vec<u8>> = HashSet::with_capacity(n);
    for _ in 0..n {
        let t = SessionToken::generate_new(&mut random);
        assert!(cookies.insert(t.into_cookie_value()));
        assert!(keys.insert(t.into_database_value()));
    }
}

#[test]
fn to_token_refuses_malformed_values() {
    for bad in ["", "abc", "-1", "340282366920938463463374607431768211456"] {
        assert_eq!(SessionToken::to_token(bad.to_string()), Err(TokenParseError));
    }
    assert_eq!(SessionToken::to_token("42".to_string()), Ok(SessionToken(42)));
}
