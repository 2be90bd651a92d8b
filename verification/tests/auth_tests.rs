use eu4_parser::auth::{
    hash_password, login_user, parse_auth_token, verify_password, verify_user_password, AuthError,
    User,
};

fn user_with_hash(id: i64, hash: String) -> User {
    User {
        id,
        username: "frank".to_string(),
        email: "frank@example.com".to_string(),
        password_hash: hash,
    }
}

#[test]
fn password_round_trip_with_stored_hash() {
    // A low-cost hash keeps the test fast; the library's checker accepts
    // whatever bcrypt accepts.
    let hash = bcrypt::hash("hunter2", 4).unwrap();
    let user = user_with_hash(7, hash);
    assert!(verify_user_password(&user, "hunter2"));
    assert!(!verify_user_password(&user, "hunter3"));
}

#[test]
fn malformed_stored_hash_is_invalid_credentials() {
    let r = verify_password("not a bcrypt hash", "pw");
    assert!(matches!(r, Err(AuthError::InvalidCredentials)));
}

#[test]
fn hash_password_produces_a_verifiable_hash() {
    let hash = hash_password("s3cret").unwrap();
    assert!(!hash.is_empty());
    assert_ne!(hash, "s3cret");
    assert!(verify_password(&hash, "s3cret").is_ok());
}

#[test]
fn login_issues_a_token_that_verifies_back() {
    let hash = bcrypt::hash("pw", 4).unwrap();
    let user = user_with_hash(42, hash);
    let resp = login_user(&user, "pw").unwrap();
    assert_eq!(resp.user_id, 42);
    // Reference token format: "<user_id>-<random_hex>".
    let (id_part, suffix) = resp.token.split_once('-').unwrap();
    assert_eq!(id_part, "42");
    assert_eq!(suffix.len(), 32);
    assert!(suffix.chars().all(|c| c.is_ascii_hexdigit() && !c.is_ascii_uppercase()));
    assert_eq!(parse_auth_token(&resp.token).unwrap(), 42);
}

#[test]
fn login_with_wrong_password_fails() {
    let hash = bcrypt::hash("pw", 4).unwrap();
    let user = user_with_hash(1, hash);
    let r = login_user(&user, "wrong");
    assert!(matches!(r, Err(AuthError::InvalidCredentials)));
}

#[test]
fn parses_well_formed_tokens() {
    assert_eq!(parse_auth_token("123-abcdef").unwrap(), 123);
    assert_eq!(parse_auth_token("12-").unwrap(), 12);
    assert_eq!(parse_auth_token("0-x-y-z").unwrap(), 0);
}

#[test]
fn rejects_malformed_tokens() {
    assert!(matches!(parse_auth_token("no separator"), Err(AuthError::InvalidCredentials)));
    assert!(matches!(parse_auth_token("-abc"), Err(AuthError::InvalidCredentials)));
    assert!(matches!(parse_auth_token("12x-abc"), Err(AuthError::InvalidCredentials)));
    assert!(matches!(parse_auth_token(""), Err(AuthError::InvalidCredentials)));
    assert!(matches!(
        parse_auth_token("99999999999999999999-abc"),
        Err(AuthError::InvalidCredentials)
    ));
}

#[test]
fn auth_errors_describe_themselves() {
    assert_eq!(AuthError::HashingError.describe(), "Password hashing failed");
    assert_eq!(AuthError::InvalidCredentials.describe(), "Invalid credentials");
    assert_eq!(
        AuthError::DatabaseError("timeout".to_string()).describe(),
        "Database error: timeout"
    );
    assert_eq!(AuthError::UserAlreadyExists.describe(), "User already exists");
}
