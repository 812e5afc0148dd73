use pdt::auth::{
    auth_decision, extract_bearer_token, mock_claims, www_authenticate, AuthAction, AuthConfig, AuthError,
    AuthenticatedUser, ClaimEntry, ClaimValue, Claims, PepFailure, ResponseBody,
};

// ---------------------------------------------------------------------------
// Configuration
// ---------------------------------------------------------------------------

#[test]
fn test_default_config() {
    let config = AuthConfig::default();
    assert!(config.enabled);
    assert_eq!(config.issuer_url, "http://localhost:8080");
    assert_eq!(config.expected_audience, None);
    assert!(!config.dev_mode);
    assert_eq!(config.userinfo_url, None);
}

#[test]
fn test_custom_config() {
    let config = AuthConfig {
        enabled: false,
        issuer_url: "https://auth.example.com".to_string(),
        expected_audience: Some("custom-api".to_string()),
        dev_mode: true,
        userinfo_url: Some("https://auth.example.com/userinfo".to_string()),
    };
    assert!(!config.enabled);
    assert_eq!(config.issuer_url, "https://auth.example.com");
    assert_eq!(config.expected_audience, Some("custom-api".to_string()));
    assert!(config.dev_mode);
    assert_eq!(config.userinfo_url, Some("https://auth.example.com/userinfo".to_string()));
}

#[test]
fn test_config_with_no_audience() {
    let config = AuthConfig {
        enabled: true,
        issuer_url: "https://auth.example.com".to_string(),
        expected_audience: None,
        dev_mode: false,
        userinfo_url: None,
    };
    assert!(config.expected_audience.is_none());
    assert!(config.userinfo_url.is_none());
}

#[test]
fn test_config_clone() {
    let config1 = AuthConfig {
        enabled: true,
        issuer_url: "https://auth.example.com".to_string(),
        expected_audience: Some("test-api".to_string()),
        dev_mode: false,
        userinfo_url: None,
    };

    let config2 = config1.clone();
    assert_eq!(config1.enabled, config2.enabled);
    assert_eq!(config1.issuer_url, config2.issuer_url);
    assert_eq!(config1.expected_audience, config2.expected_audience);
    assert_eq!(config1.dev_mode, config2.dev_mode);
    assert_eq!(config1.userinfo_url, config2.userinfo_url);
}

#[test]
fn test_config_debug_representation() {
    let config = AuthConfig::default();
    let debug_str = format!("{:?}", config);
    assert!(debug_str.contains("AuthConfig"));
    assert!(debug_str.contains("enabled"));
}

#[test]
fn test_config_with_all_fields() {
    let config = AuthConfig {
        enabled: true,
        issuer_url: "https://keycloak.example.com/auth/realms/myrealm".to_string(),
        expected_audience: Some("my-service".to_string()),
        dev_mode: true,
        userinfo_url: Some(
            "https://keycloak.example.com/auth/realms/myrealm/protocol/openid-connect/userinfo".to_string(),
        ),
    };

    assert!(config.enabled);
    assert!(config.issuer_url.contains("keycloak"));
    assert_eq!(config.expected_audience, Some("my-service".to_string()));
    assert!(config.dev_mode);
    assert!(config.userinfo_url.as_ref().unwrap().contains("userinfo"));
}

// ---------------------------------------------------------------------------
// Errors and their answers
// ---------------------------------------------------------------------------

#[test]
fn test_missing_token_error_display() {
    let error = AuthError::MissingToken;
    assert_eq!(error.to_string(), "Missing authentication token");
}

#[test]
fn test_invalid_token_error_display() {
    let error = AuthError::InvalidToken("malformed".to_string());
    let display = error.to_string();
    assert!(display.contains("Invalid token"));
}

#[test]
fn test_invalid_claims_error_display() {
    let error = AuthError::InvalidClaims("missing sub".to_string());
    let display = error.to_string();
    assert!(display.contains("Invalid claims"));
}

#[test]
fn test_error_is_std_error() {
    let error = AuthError::MissingToken;
    assert!(!error.to_string().is_empty());
}

#[test]
fn enrichment_failure_is_401_with_retry_signal() {
    let resp = AuthError::EnrichmentFailed(
        "Userinfo endpoint returned error: {\"error\":\"invalid_token\"} status=400".to_string(),
    )
    .response();
    assert_eq!(resp.status, 401);
    let www = resp.www_authenticate.clone().expect("WWW-Authenticate required");
    assert!(www.starts_with("Bearer error=\"invalid_token\""), "{www}");
    match resp.body {
        ResponseBody::Json { error, retryable, detail } => {
            assert_eq!(error, "token_expired");
            assert!(retryable);
            assert_eq!(detail, "Userinfo endpoint returned error: {\"error\":\"invalid_token\"} status=400");
        }
        other => panic!("expected a JSON body, got {:?}", other),
    }
}

#[test]
fn enrichment_failure_is_never_403_or_500() {
    let resp = AuthError::EnrichmentFailed("x".to_string()).response();
    assert_ne!(resp.status, 403);
    assert_ne!(resp.status, 500);
}

#[test]
fn pep_sourced_401_carries_challenge() {
    let resp = AuthError::PepError(PepFailure { status: 401, message: "Invalid JWT header".to_string() }).response();
    assert_eq!(resp.status, 401);
    let www = resp.www_authenticate.expect("WWW-Authenticate required on pep-sourced 401");
    assert!(www.starts_with("Bearer error=\"invalid_token\""), "{www}");
}

#[test]
fn pep_non_401_errors_do_not_carry_challenge() {
    let resp = AuthError::PepError(PepFailure { status: 403, message: "deny".to_string() }).response();
    assert_eq!(resp.status, 403);
    assert!(resp.www_authenticate.is_none(), "challenge belongs on authn 401s only — never on 403");
}

#[test]
fn missing_token_answers_401_with_challenge_and_message() {
    let resp = AuthError::MissingToken.response();
    assert_eq!(resp.status, 401);
    assert_eq!(
        resp.www_authenticate.as_deref(),
        Some("Bearer error=\"invalid_token\", error_description=\"missing or invalid bearer token\"")
    );
    match resp.body {
        ResponseBody::Text(t) => assert_eq!(t, "Missing authentication token"),
        other => panic!("expected text, got {:?}", other),
    }
}

#[test]
fn invalid_claims_answer_403_without_challenge() {
    let resp = AuthError::InvalidClaims("missing sub".to_string()).response();
    assert_eq!(resp.status, 403);
    assert!(resp.www_authenticate.is_none());
    match resp.body {
        ResponseBody::Text(t) => assert_eq!(t, "Invalid claims: missing sub"),
        other => panic!("expected text, got {:?}", other),
    }
}

#[test]
fn internal_errors_answer_500() {
    let resp = AuthError::Internal("boom".to_string()).response();
    assert_eq!(resp.status, 500);
    assert!(resp.www_authenticate.is_none());
    assert_eq!(AuthError::Internal("boom".to_string()).to_string(), "Internal error: boom");
}

#[test]
fn error_messages_match_their_kinds() {
    assert_eq!(AuthError::InvalidToken("x".to_string()).to_string(), "Invalid token: x");
    assert_eq!(AuthError::EnrichmentFailed("y".to_string()).to_string(), "Token enrichment failed: y");
    assert_eq!(
        AuthError::PepError(PepFailure { status: 401, message: "z".to_string() }).to_string(),
        "PEP error: z"
    );
}

#[test]
fn challenge_replaces_double_quotes() {
    assert_eq!(
        www_authenticate("a \"quoted\" reason"),
        "Bearer error=\"invalid_token\", error_description=\"a 'quoted' reason\""
    );
}

// ---------------------------------------------------------------------------
// Bearer tokens
// ---------------------------------------------------------------------------

#[test]
fn test_bearer_token_extraction_from_header() {
    let header = Some("Bearer valid_jwt_token_here");
    assert_eq!(extract_bearer_token(header), Some("valid_jwt_token_here".to_string()));
}

#[test]
fn test_missing_authorization_header() {
    assert_eq!(extract_bearer_token(None), None);
}

#[test]
fn test_invalid_authorization_header_format() {
    let header = Some("InvalidFormat token");
    assert!(!header.unwrap().starts_with("Bearer "));
    assert_eq!(extract_bearer_token(header), None);
}

#[test]
fn test_basic_auth_header_ignored() {
    let header = Some("Basic dXNlcjpwYXNz");
    assert!(!header.unwrap().starts_with("Bearer "));
    assert_eq!(extract_bearer_token(header), None);
}

#[test]
fn lowercase_bearer_is_not_a_bearer_token() {
    assert_eq!(extract_bearer_token(Some("bearer abc")), None);
    assert_eq!(extract_bearer_token(Some("Bearer ")), Some(String::new()));
}

// ---------------------------------------------------------------------------
// The per-request decision
// ---------------------------------------------------------------------------

fn config(enabled: bool, dev_mode: bool, audience: Option<&str>) -> AuthConfig {
    AuthConfig {
        enabled,
        issuer_url: "https://issuer".to_string(),
        expected_audience: audience.map(|a| a.to_string()),
        dev_mode,
        userinfo_url: None,
    }
}

#[test]
fn disabled_auth_forwards() {
    assert!(matches!(auth_decision(&config(false, false, None), None), AuthAction::Forward));
    assert!(matches!(
        auth_decision(&config(false, true, None), Some("t".to_string())),
        AuthAction::ForwardWithMockClaims
    ));
}

#[test]
fn enabled_auth_without_token_is_rejected_unless_dev_mode() {
    match auth_decision(&config(true, false, None), None) {
        AuthAction::Reject(AuthError::MissingToken) => {}
        other => panic!("unexpected {:?}", other),
    }
    assert!(matches!(auth_decision(&config(true, true, None), None), AuthAction::ForwardWithMockClaims));
}

#[test]
fn tokens_are_validated_against_the_audience() {
    match auth_decision(&config(true, false, Some("api")), Some("tok".to_string())) {
        AuthAction::Validate { token, audience } => {
            assert_eq!(token, "tok");
            assert_eq!(audience.as_deref(), Some("api"));
        }
        other => panic!("unexpected {:?}", other),
    }
    match auth_decision(&config(true, true, None), Some("tok".to_string())) {
        AuthAction::Validate { token, audience } => {
            assert_eq!(token, "tok");
            assert!(audience.is_none());
        }
        other => panic!("unexpected {:?}", other),
    }
}

#[test]
fn mock_claims_are_the_dev_user() {
    let c = mock_claims();
    assert_eq!(c.sub, "dev-user-id");
    assert_eq!(c.iss, "dev-issuer");
    assert_eq!(c.aud.as_deref(), Some("dev-audience"));
    assert_eq!(c.exp, 9999999999);
    assert_eq!(c.iat, Some(0));
    assert_eq!(c.email.as_deref(), Some("dev@example.com"));
    assert_eq!(c.name.as_deref(), Some("Dev User"));
    assert_eq!(c.preferred_username.as_deref(), Some("dev-user"));
    assert_eq!(c.extra.len(), 1);
    assert_eq!(c.extra[0].key, "role");
    assert!(matches!(&c.extra[0].value, ClaimValue::Text(r) if r == "admin"));
}

// ---------------------------------------------------------------------------
// The authenticated principal
// ---------------------------------------------------------------------------

#[test]
fn test_authenticated_user_creation() {
    let user = AuthenticatedUser {
        user_id: "user123".to_string(),
        email: Some("user@example.com".to_string()),
        username: Some("john_doe".to_string()),
        claims_extra: None,
    };

    assert_eq!(user.user_id, "user123");
    assert_eq!(user.email, Some("user@example.com".to_string()));
    assert_eq!(user.username, Some("john_doe".to_string()));
}

#[test]
fn test_authenticated_user_without_optional_fields() {
    let user = AuthenticatedUser { user_id: "user456".to_string(), email: None, username: None, claims_extra: None };

    assert_eq!(user.user_id, "user456");
    assert!(user.email.is_none());
    assert!(user.username.is_none());
}

#[test]
fn test_authenticated_user_partial_optional_fields() {
    let user = AuthenticatedUser {
        user_id: "user789".to_string(),
        email: Some("user@test.com".to_string()),
        username: None,
        claims_extra: None,
    };

    assert_eq!(user.user_id, "user789");
    assert_eq!(user.email, Some("user@test.com".to_string()));
    assert!(user.username.is_none());
}

#[test]
fn test_authenticated_user_all_fields() {
    let user = AuthenticatedUser {
        user_id: "admin@example.com".to_string(),
        email: Some("admin@example.com".to_string()),
        username: Some("admin".to_string()),
        claims_extra: None,
    };

    assert_eq!(user.user_id, "admin@example.com");
    assert!(user.email.is_some());
    assert!(user.username.is_some());
}

fn claims_with_extra(extra: Vec<ClaimEntry>) -> Claims {
    Claims {
        sub: "alice".to_string(),
        iss: "issuer".to_string(),
        aud: Some("api".to_string()),
        exp: 100,
        iat: Some(1),
        email: Some("alice@example.com".to_string()),
        name: Some("Alice".to_string()),
        preferred_username: Some("al".to_string()),
        extra,
    }
}

#[test]
fn principal_keeps_token_claims_for_authorization() {
    let claims = claims_with_extra(vec![ClaimEntry {
        key: "role".to_string(),
        value: ClaimValue::Text("editor".to_string()),
    }]);
    let user = AuthenticatedUser::from_claims(&claims);
    assert_eq!(user.user_id, "alice");
    assert_eq!(user.username.as_deref(), Some("al"));
    assert_eq!(user.email.as_deref(), Some("alice@example.com"));
    let c = user.to_cedar_claims();
    assert_eq!(c.sub, "alice");
    assert_eq!(c.iss, "pdt");
    assert!(c.aud.is_none());
    assert_eq!(c.exp, i64::MAX);
    assert!(c.name.is_none());
    assert_eq!(c.extra.len(), 1);
    assert!(matches!(&c.extra[0].value, ClaimValue::Text(r) if r == "editor"));
}

#[test]
fn principal_without_role_stays_without_one() {
    let user = AuthenticatedUser::from_claims(&claims_with_extra(vec![]));
    let c = user.to_cedar_claims();
    assert!(c.extra.is_empty());
}

#[test]
fn principal_built_without_token_is_a_viewer() {
    let user = AuthenticatedUser { user_id: "u".to_string(), email: None, username: None, claims_extra: None };
    let c = user.to_cedar_claims();
    assert_eq!(c.extra.len(), 1);
    assert_eq!(c.extra[0].key, "role");
    assert!(matches!(&c.extra[0].value, ClaimValue::Text(r) if r == "viewer"));
}
