use drbot::oauth::{GrantType, OAuthError, OAuthServer, TokenConfig};

fn server_with_client(grants: Vec<GrantType>, redirects: Vec<String>) -> (OAuthServer, String, String) {
    let mut server = OAuthServer::default();
    let (id, secret) = server.register_client("Test", redirects, vec!["read".to_string()], grants, true);
    (server, id, secret)
}

#[test]
fn test_register_client() {
    let mut server = OAuthServer::default();

    let (client_id, _) = server.register_client(
        "Test App",
        vec!["https://example.com/callback".to_string()],
        vec!["read".to_string(), "write".to_string()],
        vec![GrantType::AuthorizationCode],
        true,
    );

    let client = server.get_client(&client_id).unwrap();
    assert_eq!(client.name, "Test App");
    assert!(client.active);
    assert!(server.get_client("nobody").is_none());
}

#[test]
fn test_authorization_code_flow() {
    let mut server = OAuthServer::default();

    let (client_id, client_secret) = server.register_client(
        "Test App",
        vec!["https://example.com/callback".to_string()],
        vec!["read".to_string()],
        vec![GrantType::AuthorizationCode],
        true,
    );

    let code = server
        .create_auth_code(&client_id, "user123", "https://example.com/callback", vec!["read".to_string()], None, None)
        .unwrap();

    let tokens = server
        .exchange_code(&client_id, &client_secret, &code, "https://example.com/callback", None)
        .unwrap();

    assert!(!tokens.access_token.is_empty());
    assert!(tokens.refresh_token.is_some());
    assert_eq!(tokens.scope, "read");
    assert_eq!(tokens.token_type, "Bearer");

    // A code is exchanged once.
    match server.exchange_code(&client_id, &client_secret, &code, "https://example.com/callback", None) {
        Err(OAuthError::InvalidGrant(m)) => assert_eq!(m, "Code already used"),
        _ => panic!("expected the code to be spent"),
    }
    let validated = server.validate_token(&tokens.access_token).unwrap();
    assert_eq!(validated.user_id, Some("user123".to_string()));
}

#[test]
fn test_client_credentials() {
    let (mut server, client_id, client_secret) = server_with_client(vec![GrantType::ClientCredentials], vec![]);
    let tokens = server.client_credentials(&client_id, &client_secret, vec!["read".to_string()]).unwrap();
    assert!(!tokens.access_token.is_empty());
    assert_eq!(tokens.expires_in, 3600);
}

#[test]
fn test_validate_token() {
    let (mut server, client_id, client_secret) = server_with_client(vec![GrantType::ClientCredentials], vec![]);
    let tokens = server.client_credentials(&client_id, &client_secret, vec!["read".to_string()]).unwrap();
    let validated = server.validate_token(&tokens.access_token).unwrap();
    assert_eq!(validated.client_id, client_id);
    assert!(matches!(server.validate_token("bogus"), Err(OAuthError::Unauthorized(m)) if m == "Invalid token"));
}

#[test]
fn test_revoke_token() {
    let (mut server, client_id, client_secret) = server_with_client(vec![GrantType::ClientCredentials], vec![]);
    let tokens = server.client_credentials(&client_id, &client_secret, vec!["read".to_string()]).unwrap();

    server.revoke_token(&tokens.access_token).unwrap();

    let result = server.validate_token(&tokens.access_token);
    assert!(matches!(result, Err(OAuthError::TokenRevoked)));
    assert!(matches!(server.revoke_token("nothing"), Err(OAuthError::InvalidGrant(m)) if m == "Token not found"));
}

#[test]
fn client_checks_and_scopes() {
    let (mut server, client_id, _) = server_with_client(vec![GrantType::AuthorizationCode], vec![]);
    match server.client_credentials(&client_id, "wrong", vec![]) {
        Err(e) => assert_eq!(e.message(), "Invalid client: Invalid client secret"),
        Ok(_) => panic!("expected an error"),
    }
    let (mut server, client_id, secret) = server_with_client(vec![GrantType::AuthorizationCode], vec![]);
    assert!(matches!(server.client_credentials(&client_id, &secret, vec![]), Err(OAuthError::InvalidGrant(m)) if m == "Grant type not allowed"));
    assert!(matches!(server.client_credentials("unknown", &secret, vec![]), Err(OAuthError::InvalidClient(m)) if m == "unknown"));

    let (mut server, client_id, secret) = server_with_client(vec![GrantType::ClientCredentials], vec![]);
    match server.client_credentials(&client_id, &secret, vec!["read".to_string(), "admin".to_string()]) {
        Err(OAuthError::InvalidScope(m)) => assert_eq!(m, "Scope 'admin' not allowed"),
        _ => panic!("expected a scope error"),
    }

    // A public client need not prove a secret.
    let mut server = OAuthServer::default();
    let (public_id, _) = server.register_client("Public", vec![], vec![], vec![GrantType::ClientCredentials], false);
    assert!(server.client_credentials(&public_id, "anything", vec![]).is_ok());
}

#[test]
fn auth_code_checks() {
    let uri = "https://example.com/cb".to_string();
    let (mut server, id, secret) = server_with_client(vec![GrantType::AuthorizationCode], vec![uri.clone()]);
    assert!(matches!(
        server.create_auth_code(&id, "u", "https://evil.example", vec![], None, None),
        Err(OAuthError::InvalidClient(m)) if m == "Invalid redirect URI"
    ));
    let code = server.create_auth_code_at(&id, "u", &uri, vec![], None, None, 1_000).unwrap();
    assert_eq!(code.len(), 64);
    // Ten minutes later plus a millisecond the code has expired.
    assert!(matches!(
        server.exchange_code_at(&id, &secret, &code, &uri, None, 601_001),
        Err(OAuthError::InvalidGrant(m)) if m == "Code expired"
    ));
    assert!(matches!(
        server.exchange_code_at(&id, &secret, &code, "https://other", None, 2_000),
        Err(OAuthError::InvalidGrant(m)) if m == "Redirect URI mismatch"
    ));
    assert!(matches!(
        server.exchange_code_at(&id, &secret, "nope", &uri, None, 2_000),
        Err(OAuthError::InvalidGrant(m)) if m == "Invalid authorization code"
    ));
    assert!(server.exchange_code_at(&id, &secret, &code, &uri, None, 601_000).is_ok());
}

#[test]
fn pkce_plain_and_s256() {
    let uri = "https://example.com/cb".to_string();
    let (mut server, id, secret) = server_with_client(vec![GrantType::AuthorizationCode], vec![uri.clone()]);

    let code = server.create_auth_code(&id, "u", &uri, vec![], Some("secret-verifier".to_string()), None).unwrap();
    assert!(matches!(
        server.exchange_code(&id, &secret, &code, &uri, None),
        Err(OAuthError::InvalidGrant(m)) if m == "Code verifier required"
    ));
    assert!(matches!(
        server.exchange_code(&id, &secret, &code, &uri, Some("other")),
        Err(OAuthError::InvalidGrant(m)) if m == "Invalid code verifier"
    ));
    assert!(server.exchange_code(&id, &secret, &code, &uri, Some("secret-verifier")).is_ok());

    // S256 compares the verifier's bytes in hexadecimal: "ab" is 6162.
    let code = server
        .create_auth_code(&id, "u", &uri, vec![], Some("6162".to_string()), Some("S256".to_string()))
        .unwrap();
    assert!(server.exchange_code(&id, &secret, &code, &uri, Some("ab")).is_ok());
}

#[test]
fn refresh_flow_revokes_old_tokens() {
    let (mut server, id, secret) =
        server_with_client(vec![GrantType::ClientCredentials, GrantType::RefreshToken], vec![]);
    let first = server.client_credentials(&id, &secret, vec!["read".to_string()]).unwrap();
    let refresh = first.refresh_token.clone().unwrap();
    let second = server.refresh_token_at(&id, &secret, &refresh, 0).unwrap();
    assert_ne!(second.access_token, first.access_token);
    assert!(matches!(server.validate_token(&first.access_token), Err(OAuthError::TokenRevoked)));
    assert!(server.validate_token_at(&second.access_token, 0).is_ok());
    assert!(matches!(server.refresh_token_at(&id, &secret, &refresh, 0), Err(OAuthError::TokenRevoked)));
    assert!(matches!(server.refresh_token_at(&id, &secret, "nope", 0), Err(OAuthError::InvalidGrant(m)) if m == "Invalid refresh token"));

    // Revoking a refresh token stops it too.
    let third = second.refresh_token.unwrap();
    server.revoke_token(&third).unwrap();
    assert!(matches!(server.refresh_token_at(&id, &secret, &third, 0), Err(OAuthError::TokenRevoked)));
}

#[test]
fn token_expiry() {
    let mut server = OAuthServer::new(TokenConfig { access_token_lifetime: 10, refresh_token_lifetime: 20, auth_code_lifetime: 5 });
    let (id, secret) = server.register_client("S", vec![], vec![], vec![GrantType::ClientCredentials], true);
    let t = server.client_credentials_at(&id, &secret, vec![], 1_000).unwrap();
    assert!(server.validate_token_at(&t.access_token, 11_000).is_ok());
    assert!(matches!(server.validate_token_at(&t.access_token, 11_001), Err(OAuthError::TokenExpired)));
    let r = t.refresh_token.unwrap();
    assert!(matches!(server.refresh_token_at(&id, &secret, &r, 21_001), Err(OAuthError::TokenExpired)));
}

#[test]
fn scopes_register() {
    let mut server = OAuthServer::default();
    server.register_scope("read", "Read access", true);
    server.register_scope("read", "Read it all", false);
}
