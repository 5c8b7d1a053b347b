use auth_core::errors::AppError;
use auth_core::hashing::verify_password;
use auth_core::user::{User, UserRole};
use auth_core::users::{
    build_new_user, get_user, list_params, prepare_password_update, ListUsersQuery, UserResponse,
};

fn sample_user() -> User {
    User {
        id: 7,
        email: "dora@example.com".to_string(),
        password: "hash".to_string(),
        role: UserRole::Admin,
        is_email_verified: true,
        deleted_at: None,
        created_at: 12345,
    }
}

#[test]
fn build_new_user_hashes_and_defaults() {
    let u = build_new_user("eve@example.com".to_string(), "Abcdef1!", UserRole::User, 99)
        .expect("creation should succeed");
    assert_eq!(u.id, 0);
    assert_eq!(u.email, "eve@example.com");
    assert!(verify_password("Abcdef1!", &u.password));
    assert_eq!(u.role, UserRole::User);
    assert!(!u.is_email_verified);
    assert_eq!(u.deleted_at, None);
    assert_eq!(u.created_at, 99);
}

#[test]
fn build_new_user_enforces_the_policy() {
    let r = build_new_user("eve@example.com".to_string(), "weak", UserRole::User, 0);
    assert_eq!(r.unwrap_err(), AppError::InvalidPassword);
}

#[test]
fn get_user_answers_not_found() {
    assert_eq!(get_user(None).unwrap_err(), AppError::NotFound);
    let resp = get_user(Some(sample_user())).unwrap();
    assert_eq!(resp.id, 7);
    assert_eq!(resp.email, "dora@example.com");
    assert_eq!(resp.created_at, 12345);
}

#[test]
fn response_carries_no_credential() {
    let resp = UserResponse::from(sample_user());
    assert_eq!(resp.id, 7);
    assert_eq!(resp.email, "dora@example.com");
    assert_eq!(resp.created_at, 12345);
}

#[test]
fn listing_defaults_to_ten_from_the_start() {
    assert_eq!(
        list_params(&ListUsersQuery { limit: None, offset: None }),
        (10, 0)
    );
    assert_eq!(
        list_params(&ListUsersQuery { limit: Some(25), offset: Some(50) }),
        (25, 50)
    );
}

#[test]
fn password_updates_are_hashed() {
    assert_eq!(prepare_password_update(None).unwrap(), None);
    let h = prepare_password_update(Some("NewPass1!")).unwrap().unwrap();
    assert!(verify_password("NewPass1!", &h));
    assert!(!verify_password("NewPass2!", &h));
}

#[test]
fn soft_delete_and_email_verification_mark_the_record() {
    let mut u = sample_user();
    u.is_email_verified = false;
    assert!(u.is_visible());
    u.mark_deleted(777);
    assert_eq!(u.deleted_at, Some(777));
    assert!(!u.is_visible());
    assert_eq!(u.id, 7);
    u.mark_email_verified();
    assert!(u.is_email_verified);
    assert_eq!(u.deleted_at, Some(777));
}
