use auth_core::claims::Claims;
use auth_core::token::{JwtError, JwtService};
use auth_core::user::UserRole;

fn service() -> JwtService {
    JwtService::new(b"test-secret-key".to_vec())
}

#[test]
fn verify_recovers_issued_claims() {
    let svc = service();
    let now: u64 = 1_700_000_000;
    let token = svc.generate_token_at(42, UserRole::User, now).unwrap();
    let claims = svc.verify_token_at(&token, now + 10).unwrap();
    assert_eq!(
        claims,
        Claims { sub: 42, role: UserRole::User, exp: now + 86400, iat: now }
    );
}

#[test]
fn roles_and_negative_ids_round_trip() {
    let svc = service();
    let now: u64 = 5;
    let token = svc.generate_token_at(-7, UserRole::Admin, now).unwrap();
    let claims = svc.verify_token_at(&token, now).unwrap();
    assert_eq!(claims.sub, -7);
    assert_eq!(claims.role, UserRole::Admin);
}

#[test]
fn expired_token_fails_verification() {
    let svc = service();
    let now: u64 = 1_700_000_000;
    let token = svc.generate_token_at(1, UserRole::User, now).unwrap();
    // exactly at expiry, and after it
    assert_eq!(
        svc.verify_token_at(&token, now + 86400),
        Err(JwtError::TokenVerification)
    );
    assert_eq!(
        svc.verify_token_at(&token, now + 86401),
        Err(JwtError::TokenVerification)
    );
    // one second before expiry it still verifies
    assert!(svc.verify_token_at(&token, now + 86399).is_ok());
}

#[test]
fn tampered_signature_fails_verification() {
    let svc = service();
    let now: u64 = 1_700_000_000;
    let token = svc.generate_token_at(1, UserRole::User, now).unwrap();
    let mut bytes = token.into_bytes();
    let last = *bytes.last().unwrap();
    *bytes.last_mut().unwrap() = if last == b'A' { b'B' } else { b'A' };
    let tampered = String::from_utf8(bytes).unwrap();
    assert_eq!(
        svc.verify_token_at(&tampered, now),
        Err(JwtError::TokenVerification)
    );
}

#[test]
fn tampered_payload_fails_verification() {
    let svc = service();
    let now: u64 = 1_700_000_000;
    let token = svc.generate_token_at(1, UserRole::User, now).unwrap();
    let parts: Vec<&str> = token.split('.').collect();
    let other = svc.generate_token_at(2, UserRole::User, now).unwrap();
    let other_parts: Vec<&str> = other.split('.').collect();
    // someone else's payload under this token's signature
    let forged = format!("{}.{}.{}", parts[0], other_parts[1], parts[2]);
    assert_eq!(
        svc.verify_token_at(&forged, now),
        Err(JwtError::TokenVerification)
    );
}

#[test]
fn token_from_another_secret_fails_verification() {
    let svc = service();
    let other = JwtService::new(b"a-different-secret".to_vec());
    let now: u64 = 1_700_000_000;
    let token = other.generate_token_at(1, UserRole::User, now).unwrap();
    assert_eq!(
        svc.verify_token_at(&token, now),
        Err(JwtError::TokenVerification)
    );
}

#[test]
fn malformed_tokens_fail_verification() {
    let svc = service();
    let now: u64 = 1_700_000_000;
    for bad in ["", "abc", "a.b", "not.a.token", "..", "a.b.c.d"] {
        assert_eq!(
            svc.verify_token_at(bad, now),
            Err(JwtError::TokenVerification),
            "{bad:?} should be rejected"
        );
    }
}

#[test]
fn clock_based_token_verifies_now() {
    let svc = service();
    let token = svc.generate_token(9).unwrap();
    let claims = svc.verify_token(&token).unwrap();
    assert_eq!(claims.sub, 9);
    assert_eq!(claims.role, UserRole::User);
    assert_eq!(claims.exp, claims.iat + 86400);
}

#[test]
fn issued_token_is_accepted_by_the_jwt_crate() {
    let svc = service();
    let token = svc.generate_token(1234).unwrap();
    let key = jsonwebtoken::DecodingKey::from_secret(b"test-secret-key");
    let validation = jsonwebtoken::Validation::new(jsonwebtoken::Algorithm::HS256);
    let decoded = jsonwebtoken::decode::<serde_json::Value>(&token, &key, &validation)
        .expect("the jwt crate should accept the token");
    assert_eq!(decoded.claims.get("sub").and_then(|v| v.as_i64()), Some(1234));
    assert_eq!(
        decoded.claims.get("role").and_then(|v| v.as_str()),
        Some("User")
    );
}
