use auth_core::errors::AppError;
use auth_core::flow::{login, register, register_response, LoginRequest, RegisterRequest};
use auth_core::gate::{auth_middleware, extract_bearer};
use auth_core::protected;
use auth_core::token::JwtService;
use auth_core::user::{User, UserRole};

fn stored_user(id: i32, email: &str, password_hash: String) -> User {
    User {
        id,
        email: email.to_string(),
        password: password_hash,
        role: UserRole::User,
        is_email_verified: false,
        deleted_at: None,
        created_at: 1000,
    }
}

#[test]
fn register_login_and_protected_round_trip() {
    let jwt = JwtService::new(b"scenario-secret".to_vec());
    let now: u64 = 1_700_000_000;

    // registration succeeds, returns the record to persist, no token
    let req = RegisterRequest {
        email: "alice@example.com".to_string(),
        password: "Abcdef1!".to_string(),
    };
    let record = register(&req, false, 1000).expect("registration should succeed");
    assert_eq!(record.email, "alice@example.com");
    assert_eq!(record.role, UserRole::User);
    assert!(!record.is_email_verified);
    assert_ne!(record.password, "Abcdef1!");
    let resp = register_response(&stored_user(1, &record.email, record.password.clone()));
    assert_eq!(resp.user_id, 1);
    assert_eq!(resp.email, "alice@example.com");

    // registering the same email again conflicts
    let again = register(&req, true, 1001);
    assert_eq!(again.unwrap_err(), AppError::UserAlreadyExists);

    // login with the correct password yields a token
    let user = stored_user(1, "alice@example.com", record.password.clone());
    let ok = login(
        &LoginRequest {
            email: "alice@example.com".to_string(),
            password: "Abcdef1!".to_string(),
        },
        Some(&user),
        &jwt,
        now,
    )
    .expect("login should succeed");
    assert_eq!(ok.user_id, 1);
    assert_eq!(ok.email, "alice@example.com");

    // the wrong password and an unknown email fail identically
    let wrong = login(
        &LoginRequest {
            email: "alice@example.com".to_string(),
            password: "Abcdef2!".to_string(),
        },
        Some(&user),
        &jwt,
        now,
    )
    .unwrap_err();
    let unknown = login(
        &LoginRequest {
            email: "bob@example.com".to_string(),
            password: "Abcdef1!".to_string(),
        },
        None,
        &jwt,
        now,
    )
    .unwrap_err();
    assert_eq!(wrong, AppError::AuthenticationError);
    assert_eq!(unknown, AppError::AuthenticationError);
    assert_eq!(wrong.status_code(), unknown.status_code());
    assert_eq!(wrong.message(), unknown.message());

    // the protected route sees the verified claims
    let header = format!("Bearer {}", ok.token).into_bytes();
    let claims = auth_middleware(Some(&header), &jwt, now + 5).expect("gate should pass");
    assert_eq!(claims.sub, 1);
    let body = protected::handler(&claims);
    assert_eq!(body.user_id, 1);
    assert_eq!(body.message, "This is a protected endpoint");

    // no header, a foreign scheme, a forged and an expired token: all 401
    assert_eq!(
        auth_middleware(None, &jwt, now).unwrap_err(),
        AppError::AuthenticationError
    );
    let basic = b"Basic abc".to_vec();
    assert_eq!(
        auth_middleware(Some(&basic), &jwt, now).unwrap_err(),
        AppError::AuthenticationError
    );
    let forged = JwtService::new(b"other-secret".to_vec())
        .generate_token_at(1, UserRole::User, now)
        .unwrap();
    let forged_header = format!("Bearer {}", forged).into_bytes();
    assert_eq!(
        auth_middleware(Some(&forged_header), &jwt, now).unwrap_err(),
        AppError::AuthenticationError
    );
    assert_eq!(
        auth_middleware(Some(&header), &jwt, now + 86400).unwrap_err(),
        AppError::AuthenticationError
    );
}

#[test]
fn register_rejects_weak_password() {
    let req = RegisterRequest {
        email: "carol@example.com".to_string(),
        password: "weak".to_string(),
    };
    assert_eq!(register(&req, false, 0).unwrap_err(), AppError::InvalidPassword);
}

#[test]
fn conflict_wins_over_password_check() {
    let req = RegisterRequest {
        email: "carol@example.com".to_string(),
        password: "weak".to_string(),
    };
    assert_eq!(register(&req, true, 0).unwrap_err(), AppError::UserAlreadyExists);
}

#[test]
fn bearer_extraction_is_exact() {
    assert_eq!(
        extract_bearer(&b"Bearer abc.def.ghi".to_vec()),
        Some(b"abc.def.ghi".to_vec())
    );
    assert_eq!(extract_bearer(&b"Bearer ".to_vec()), Some(Vec::new()));
    assert_eq!(extract_bearer(&b"bearer abc".to_vec()), None);
    assert_eq!(extract_bearer(&b"Bearerabc".to_vec()), None);
    assert_eq!(extract_bearer(&b"".to_vec()), None);
}

#[test]
fn auth_error_maps_to_401() {
    assert_eq!(AppError::AuthenticationError.status_code(), 401);
    assert_eq!(AppError::UserAlreadyExists.status_code(), 409);
    assert_eq!(AppError::InvalidPassword.status_code(), 400);
    assert_eq!(AppError::NotFound.status_code(), 404);
}
