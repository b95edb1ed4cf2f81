use rudrist_backend::accounts::{AccountError, AccountTable};
use rudrist_backend::session::{SessionStore, StoreError};
use rudrist_backend::token::SessionToken;

#[test]
fn session_create_and_resolve() {
    let mut s = SessionStore::new();
    assert!(s.is_empty());
    assert_eq!(s.create(SessionToken(5), 1), Ok(()));
    assert_eq!(s.create(SessionToken(6), 2), Ok(()));
    assert!(!s.is_empty());
    assert_eq!(s.resolve(SessionToken(5)), Some(1));
    assert_eq!(s.resolve(SessionToken(6)), Some(2));
    assert_eq!(s.resolve(SessionToken(7)), None);
}

#[test]
fn session_duplicate_key_is_not_overwritten() {
    let mut s = SessionStore::new();
    assert_eq!(s.create(SessionToken(5), 1), Ok(()));
    assert_eq!(s.create(SessionToken(5), 2), Err(StoreError::DuplicateKey));
    assert_eq!(s.resolve(SessionToken(5)), Some(1));
}

#[test]
fn session_revoke_token_ends_one_session() {
    let mut s = SessionStore::new();
    s.create(SessionToken(1), 10).unwrap();
    s.create(SessionToken(2), 10).unwrap();
    assert!(s.revoke_token(SessionToken(1)));
    assert!(!s.revoke_token(SessionToken(1)));
    assert_eq!(s.resolve(SessionToken(1)), None);
    assert_eq!(s.resolve(SessionToken(2)), Some(10));
}

#[test]
fn session_revoke_user_ends_all_of_its_sessions() {
    let mut s = SessionStore::new();
    s.create(SessionToken(1), 10).unwrap();
    s.create(SessionToken(2), 20).unwrap();
    s.create(SessionToken(3), 10).unwrap();
    s.create(SessionToken(4), 10).unwrap();
    s.revoke_user(10);
    assert_eq!(s.resolve(SessionToken(1)), None);
    assert_eq!(s.resolve(SessionToken(3)), None);
    assert_eq!(s.resolve(SessionToken(4)), None);
    assert_eq!(s.resolve(SessionToken(2)), Some(20));
    s.revoke_user(10);
    assert_eq!(s.resolve(SessionToken(2)), Some(20));
    s.revoke_user(20);
    assert!(s.is_empty());
}

#[test]
fn accounts_register_and_look_up() {
    let mut a = AccountTable::new();
    assert_eq!(a.len(), 0);
    assert_eq!(a.register("alice", "a@x.org", "h1".to_string(), None), Ok(1));
    assert_eq!(a.register("bob", "b@x.org", "h2".to_string(), Some(3)), Ok(2));
    assert_eq!(a.len(), 2);
    assert_eq!(a.credentials("alice"), Some((1, "h1".to_string())));
    assert_eq!(a.credentials("bob"), Some((2, "h2".to_string())));
    assert_eq!(a.credentials("carol"), None);
    assert_eq!(a.password_hash_of(2), Some("h2".to_string()));
    assert_eq!(a.password_hash_of(0), None);
    assert_eq!(a.password_hash_of(3), None);
    assert_eq!(a.account_type_of(1), None);
    assert_eq!(a.account_type_of(2), Some(3));
    assert_eq!(a.account_type_of(-1), None);
}

#[test]
fn accounts_refuse_taken_username_or_email() {
    let mut a = AccountTable::new();
    a.register("alice", "a@x.org", "h1".to_string(), None).unwrap();
    assert_eq!(a.register("alice", "other@x.org", "h".to_string(), None), Err(AccountError::AccountExists));
    assert_eq!(a.register("alicia", "a@x.org", "h".to_string(), None), Err(AccountError::AccountExists));
    assert!(a.is_taken("alice", "new@x.org"));
    assert!(a.is_taken("new", "a@x.org"));
    assert!(!a.is_taken("new", "new@x.org"));
    assert_eq!(a.len(), 1);
}

#[test]
fn accounts_set_password_hash() {
    let mut a = AccountTable::new();
    a.register("alice", "a@x.org", "h1".to_string(), None).unwrap();
    a.register("bob", "b@x.org", "h2".to_string(), None).unwrap();
    assert!(a.set_password_hash(1, "h3".to_string()));
    assert_eq!(a.password_hash_of(1), Some("h3".to_string()));
    assert_eq!(a.password_hash_of(2), Some("h2".to_string()));
    assert!(!a.set_password_hash(9, "h4".to_string()));
}
