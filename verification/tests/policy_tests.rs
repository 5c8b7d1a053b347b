use auth_core::errors::AppError;
use auth_core::policy::{validate_password, PasswordRequirements};

#[test]
fn accepts_password_meeting_policy() {
    assert_eq!(validate_password("Abcdef1!"), Ok(()));
    assert_eq!(validate_password("xY9@longerpassword"), Ok(()));
    assert_eq!(validate_password("A1$aaaaa"), Ok(()));
}

#[test]
fn rejects_too_short() {
    assert_eq!(validate_password("Ab1!xyz"), Err(AppError::InvalidPassword));
}

#[test]
fn rejects_missing_lowercase() {
    assert_eq!(validate_password("ABCDEF1!"), Err(AppError::InvalidPassword));
}

#[test]
fn rejects_missing_uppercase() {
    assert_eq!(validate_password("abcdef1!"), Err(AppError::InvalidPassword));
}

#[test]
fn rejects_missing_digit() {
    assert_eq!(validate_password("Abcdefg!"), Err(AppError::InvalidPassword));
}

#[test]
fn rejects_missing_special() {
    assert_eq!(validate_password("Abcdefg1"), Err(AppError::InvalidPassword));
}

#[test]
fn rejects_empty() {
    assert_eq!(validate_password(""), Err(AppError::InvalidPassword));
}

#[test]
fn requirements_struct_checks_same_policy() {
    let good = PasswordRequirements { password: String::from("Abcdef1!") };
    assert_eq!(good.validate(), Ok(()));
    let bad = PasswordRequirements { password: String::from("weak") };
    assert_eq!(bad.validate(), Err(AppError::InvalidPassword));
}

#[test]
fn each_special_character_counts() {
    for c in ['@', '$', '!', '%', '*', '?', '&'] {
        let p = format!("Abcdefg1{}", c);
        assert_eq!(validate_password(&p), Ok(()));
    }
    // a punctuation mark outside the fixed set does not count
    assert_eq!(validate_password("Abcdefg1#"), Err(AppError::InvalidPassword));
}
