use auth_core::errors::AppError;
use auth_core::hashing::{hash_password, verify_password};

#[test]
fn hash_then_verify_succeeds() {
    let h = hash_password("Abcdef1!").expect("hashing should succeed");
    assert!(verify_password("Abcdef1!", &h));
}

#[test]
fn verify_rejects_other_plaintext() {
    let h = hash_password("Abcdef1!").expect("hashing should succeed");
    assert!(!verify_password("Abcdef2!", &h));
    assert!(!verify_password("", &h));
}

#[test]
fn verify_is_false_on_malformed_hash() {
    assert!(!verify_password("Abcdef1!", "not a bcrypt hash"));
    assert!(!verify_password("Abcdef1!", ""));
}

#[test]
fn hashes_are_salted_but_both_verify() {
    let h1 = hash_password("Abcdef1!").expect("hashing should succeed");
    let h2 = hash_password("Abcdef1!").expect("hashing should succeed");
    assert_ne!(h1, h2);
    assert!(verify_password("Abcdef1!", &h1));
    assert!(verify_password("Abcdef1!", &h2));
}

#[test]
fn internal_error_is_the_500_category() {
    assert_eq!(AppError::InternalServerError.status_code(), 500);
}
