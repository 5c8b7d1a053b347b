use auth_core::base64url::{b64_decode, b64_encode};
use auth_core::claims::{claims_json, parse_claims, Claims};
use auth_core::user::UserRole;

#[test]
fn known_encodings() {
    assert_eq!(b64_encode(&Vec::new()), Vec::<u8>::new());
    assert_eq!(b64_encode(&b"M".to_vec()), b"TQ".to_vec());
    assert_eq!(b64_encode(&b"Ma".to_vec()), b"TWE".to_vec());
    assert_eq!(b64_encode(&b"Man".to_vec()), b"TWFu".to_vec());
    // the url-safe alphabet: 62 and 63 are '-' and '_'
    assert_eq!(b64_encode(&vec![0xfb, 0xff]), b"-_8".to_vec());
}

#[test]
fn decode_inverts_encode() {
    for input in [
        Vec::new(),
        b"x".to_vec(),
        b"xy".to_vec(),
        b"xyz".to_vec(),
        b"The quick brown fox".to_vec(),
        vec![0u8, 255, 128, 7, 63, 64],
    ] {
        assert_eq!(b64_decode(&b64_encode(&input)), Some(input));
    }
}

#[test]
fn decode_rejects_broken_text() {
    assert_eq!(b64_decode(&b"A".to_vec()), None);
    assert_eq!(b64_decode(&b"TWFuA".to_vec()), None);
    assert_eq!(b64_decode(&b"TW.u".to_vec()), None);
    assert_eq!(b64_decode(&b"TW=u".to_vec()), None);
    assert_eq!(b64_decode(&Vec::new()), Some(Vec::new()));
}

#[test]
fn payload_writes_the_fixed_json_shape() {
    let c = Claims { sub: 42, role: UserRole::User, exp: 86405, iat: 5 };
    assert_eq!(
        claims_json(&c),
        b"{\"sub\":42,\"role\":\"User\",\"exp\":86405,\"iat\":5}".to_vec()
    );
    let neg = Claims { sub: -7, role: UserRole::Admin, exp: 1, iat: 0 };
    assert_eq!(
        claims_json(&neg),
        b"{\"sub\":-7,\"role\":\"Admin\",\"exp\":1,\"iat\":0}".to_vec()
    );
}

#[test]
fn payload_parse_inverts_writing() {
    for c in [
        Claims { sub: 0, role: UserRole::User, exp: 0, iat: 0 },
        Claims { sub: -2147483648, role: UserRole::Admin, exp: u64::MAX, iat: u64::MAX },
        Claims { sub: 2147483647, role: UserRole::User, exp: 86400, iat: 1 },
    ] {
        assert_eq!(parse_claims(&claims_json(&c)), Some(c));
    }
}

#[test]
fn payload_parse_rejects_other_shapes() {
    assert_eq!(parse_claims(&Vec::new()), None);
    assert_eq!(parse_claims(&b"{}".to_vec()), None);
    // fields out of order
    assert_eq!(
        parse_claims(&b"{\"role\":\"User\",\"sub\":1,\"exp\":2,\"iat\":1}".to_vec()),
        None
    );
    // a subject beyond the id range
    assert_eq!(
        parse_claims(&b"{\"sub\":2147483648,\"role\":\"User\",\"exp\":2,\"iat\":1}".to_vec()),
        None
    );
    // a leading zero is not canonical
    assert_eq!(
        parse_claims(&b"{\"sub\":01,\"role\":\"User\",\"exp\":2,\"iat\":1}".to_vec()),
        None
    );
    // an unknown role
    assert_eq!(
        parse_claims(&b"{\"sub\":1,\"role\":\"Root\",\"exp\":2,\"iat\":1}".to_vec()),
        None
    );
    // trailing bytes
    assert_eq!(
        parse_claims(&b"{\"sub\":1,\"role\":\"User\",\"exp\":2,\"iat\":1} ".to_vec()),
        None
    );
}
