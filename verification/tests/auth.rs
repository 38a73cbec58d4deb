use recipe_server::AppState;
use recipe_server::authjwt::{
    AuthBody, AuthError, JwtKeys, Registration, TOKEN_LIFETIME_SECONDS, extract_bearer,
    make_jwt_token, make_jwt_token_at, validate_token,
};
use recipe_server::recipe::RecipeStore;

fn test_state() -> AppState {
    AppState::new(
        RecipeStore::new(),
        JwtKeys::new(b"jwt-signing-secret"),
        "correct".to_string(),
    )
}

fn registration(password: &str) -> Registration {
    Registration {
        full_name: "John Smith".to_string(),
        email: "johnsmith@example.org".to_string(),
        password: password.to_string(),
    }
}

#[test]
fn issue_then_validate_round_trip() {
    let state = test_state();
    let body = make_jwt_token_at(&state, &registration("correct"), 1000).unwrap();
    assert_eq!(body.token_type, "Bearer");
    let claims = validate_token(&body.access_token, &state.jwt_keys, 2000).unwrap();
    assert_eq!(claims.sub, "John Smith <johnsmith@example.org>");
    assert_eq!(claims.iss, "recipe-server.po8.org");
    assert_eq!(claims.exp, 1000 + TOKEN_LIFETIME_SECONDS);
}

#[test]
fn issue_with_system_clock_then_validate() {
    let state = test_state();
    let body = make_jwt_token(&state, &registration("correct")).unwrap();
    assert_eq!(body.token_type, "Bearer");
    let claims = validate_token(&body.access_token, &state.jwt_keys, 0).unwrap();
    assert_eq!(claims.sub, "John Smith <johnsmith@example.org>");
}

#[test]
fn expired_token_is_rejected() {
    let state = test_state();
    let body = make_jwt_token_at(&state, &registration("correct"), 1000).unwrap();
    let exp = 1000 + TOKEN_LIFETIME_SECONDS;
    assert_eq!(
        validate_token(&body.access_token, &state.jwt_keys, exp),
        Err(AuthError::Registration)
    );
    assert_eq!(
        validate_token(&body.access_token, &state.jwt_keys, exp + 5000),
        Err(AuthError::Registration)
    );
    assert!(validate_token(&body.access_token, &state.jwt_keys, exp - 1).is_ok());
}

#[test]
fn wrong_password_yields_registration_error_and_no_token() {
    let state = test_state();
    let result = make_jwt_token_at(&state, &registration("wrong"), 1000);
    assert_eq!(result, Err(AuthError::Registration));
    let result = make_jwt_token(&state, &registration("wrong"));
    assert_eq!(result, Err(AuthError::Registration));
}

#[test]
fn token_signed_with_another_secret_is_rejected() {
    let state = test_state();
    let body = make_jwt_token_at(&state, &registration("correct"), 1000).unwrap();
    let other_keys = JwtKeys::new(b"a-different-secret");
    assert_eq!(
        validate_token(&body.access_token, &other_keys, 2000),
        Err(AuthError::Registration)
    );
}

#[test]
fn tampered_token_is_rejected() {
    let state = test_state();
    let body = make_jwt_token_at(&state, &registration("correct"), 1000).unwrap();
    let mut tampered = body.access_token.clone();
    tampered.push('x');
    assert_eq!(
        validate_token(&tampered, &state.jwt_keys, 2000),
        Err(AuthError::Registration)
    );
    assert_eq!(
        validate_token("not-a-token", &state.jwt_keys, 2000),
        Err(AuthError::Registration)
    );
}

#[test]
fn bearer_extraction() {
    assert_eq!(extract_bearer("Bearer abc.def.ghi"), Some("abc.def.ghi".to_string()));
    assert_eq!(extract_bearer("Bearer "), Some(String::new()));
    assert_eq!(extract_bearer("Token abc"), None);
    assert_eq!(extract_bearer("Bearer"), None);
    assert_eq!(extract_bearer(""), None);
}

#[test]
fn auth_body_carries_fixed_type_label() {
    let body = AuthBody::new("some.token.value".to_string());
    assert_eq!(body.access_token, "some.token.value");
    assert_eq!(body.token_type, "Bearer");
}

#[test]
fn error_response_parts() {
    assert_eq!(AuthError::Registration.response_parts(), (401, "Invalid registration"));
    assert_eq!(AuthError::TokenCreation.response_parts(), (500, "Token creation error"));
    assert_eq!(AuthError::InvalidToken.response_parts(), (401, "Invalid token"));
}

#[test]
fn jwt_keys_hold_the_secret() {
    let keys = JwtKeys::new(b"abc");
    assert_eq!(keys.secret, b"abc".to_vec());
}
