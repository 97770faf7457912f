use jsonwebtoken::{Algorithm, DecodingKey};
use telemetry_core::b64::{b64_decode, b64_encode};
use telemetry_core::claims::{claims_to_json, parse_claims_json, Claims};
use telemetry_core::errors::AppError;
use telemetry_core::strutil::{parse_u64, u64_to_string};
use telemetry_core::tokens::{generate_token, verify_token};

#[test]
fn token_round_trip_until_expiry() {
    let secret = "SECRET-REDACTED".to_string();
    let now = 1_700_000_000u64;
    let token = generate_token(9, &"user".to_string(), &secret, 2, now).unwrap();
    let exp = now + 2 * 3600;
    // Accepted with the same payload fields strictly before the expiry.
    let c = verify_token(&token, &secret, exp - 1).unwrap();
    assert_eq!(c.sub, "9");
    assert_eq!(c.role, "user");
    assert_eq!(c.exp, exp);
    assert_eq!(c.project_id, None);
    assert!(!c.is_api_key);
    // Rejected at and after the expiry.
    match verify_token(&token, &secret, exp) {
        Err(AppError::AuthError(_)) => {}
        _ => panic!("expected the token to expire at its expiry"),
    }
    match verify_token(&token, &secret, exp + 100) {
        Err(AppError::AuthError(_)) => {}
        _ => panic!("expected the token to stay expired"),
    }
    // Rejected under another secret and after tampering.
    match verify_token(&token, &"other-secret".to_string(), now) {
        Err(AppError::AuthError(_)) => {}
        _ => panic!("expected a foreign secret to be rejected"),
    }
    let mut tampered = token.clone();
    tampered.push('A');
    match verify_token(&tampered, &secret, now) {
        Err(AppError::AuthError(_)) => {}
        _ => panic!("expected a tampered token to be rejected"),
    }
}

#[test]
fn token_signature_checks_out_under_jsonwebtoken() {
    let secret = "SECRET-REDACTED".to_string();
    let token = generate_token(5, &"user".to_string(), &secret, 1, 1_700_000_000).unwrap();
    let second_dot = token.rfind('.').unwrap();
    let message = &token[..second_dot];
    let signature = &token[second_dot + 1..];
    let ok = jsonwebtoken::crypto::verify(
        signature,
        message.as_bytes(),
        &DecodingKey::from_secret(secret.as_bytes()),
        Algorithm::HS256,
    )
    .unwrap();
    assert!(ok);
}

#[test]
fn claims_json_round_trips() {
    let c = Claims {
        sub: "42".to_string(),
        role: "admin".to_string(),
        exp: 123456,
        project_id: Some("7".to_string()),
        is_api_key: true,
    };
    let json = claims_to_json(&c);
    assert_eq!(
        json,
        "{\"sub\":\"42\",\"role\":\"admin\",\"exp\":123456,\"project_id\":\"7\",\"is_api_key\":true}"
    );
    let back = parse_claims_json(&json).unwrap();
    assert_eq!(back.sub, "42");
    assert_eq!(back.role, "admin");
    assert_eq!(back.exp, 123456);
    assert_eq!(back.project_id.as_deref(), Some("7"));
    assert!(back.is_api_key);
    // Non-canonical text is rejected.
    assert!(parse_claims_json("{\"sub\":\"42\"}").is_none());
    assert!(
        parse_claims_json(
            "{\"sub\":\"42\",\"role\":\"admin\",\"exp\":007,\"project_id\":null,\"is_api_key\":true}"
        )
        .is_none()
    );
}

#[test]
fn base64url_round_trips() {
    for text in ["", "a", "ab", "abc", "abcd", "{\"sub\":\"42\"}"] {
        let encoded = b64_encode(text);
        let decoded = b64_decode(&encoded).unwrap();
        assert_eq!(decoded, text);
    }
    assert_eq!(b64_encode("abc"), "YWJj");
    assert!(b64_decode("a").is_none());
    assert!(b64_decode("Y!Jj").is_none());
}

#[test]
fn decimal_text_round_trips() {
    for n in [0u64, 1, 9, 10, 12345, u64::MAX] {
        let s = u64_to_string(n);
        assert_eq!(parse_u64(&s), Some(n));
    }
    assert_eq!(u64_to_string(0), "0");
    assert_eq!(u64_to_string(105), "105");
    assert_eq!(parse_u64(""), None);
    assert_eq!(parse_u64("12a"), None);
    assert_eq!(parse_u64("18446744073709551616"), None);
}

#[test]
fn error_responses_keep_internal_detail_private() {
    let v = AppError::ValidationError("bad field".to_string());
    assert_eq!(v.status_code(), 400);
    let body = v.error_response();
    assert_eq!(body.error, "VALIDATION_ERROR");
    assert_eq!(body.message, "bad field");
    let d = AppError::DatabaseError("connection reset".to_string());
    assert_eq!(d.status_code(), 500);
    let body = d.error_response();
    assert_eq!(body.error, "DATABASE_ERROR");
    assert_eq!(body.message, "A database error occurred");
    assert_eq!(AppError::AuthError(String::new()).status_code(), 401);
    assert_eq!(AppError::ForbiddenError(String::new()).status_code(), 403);
    assert_eq!(AppError::NotFoundError(String::new()).status_code(), 404);
    assert_eq!(AppError::ConflictError(String::new()).status_code(), 409);
}

#[test]
fn geolocation_recognises_documentation_ranges() {
    assert_eq!(telemetry_core::geo::ip_to_country("192.0.2.55").as_deref(), Some("US"));
    assert_eq!(telemetry_core::geo::ip_to_country("198.51.100.1").as_deref(), Some("UK"));
    assert_eq!(telemetry_core::geo::ip_to_country("203.0.113.9").as_deref(), Some("JP"));
    assert_eq!(telemetry_core::geo::ip_to_country("8.8.8.8"), None);
}

#[test]
fn config_assembles_defaults_and_rejects_bad_numbers() {
    let c = telemetry_core::config::Config::from_values(
        Some("postgres://localhost/app".to_string()),
        None,
        &None,
        Some("SECRET-REDACTED".to_string()),
        &None,
        &Some("http://a.example,http://b.example".to_string()),
        None,
    )
    .unwrap();
    assert_eq!(c.server_host, "127.0.0.1");
    assert_eq!(c.server_port, 8080);
    assert_eq!(c.jwt_expiration, 86400);
    assert_eq!(c.log_level, "info");
    assert_eq!(c.cors_allowed_origins.len(), 2);
    assert_eq!(c.cors_allowed_origins[0], "http://a.example");
    match telemetry_core::config::Config::from_values(
        Some("postgres://localhost/app".to_string()),
        None,
        &Some("70000".to_string()),
        Some("SECRET-REDACTED".to_string()),
        &None,
        &None,
        None,
    ) {
        Err(AppError::ValidationError(_)) => {}
        _ => panic!("expected an out-of-range port to be rejected"),
    }
    match telemetry_core::config::Config::from_values(
        None,
        None,
        &None,
        Some("SECRET-REDACTED".to_string()),
        &None,
        &None,
        None,
    ) {
        Err(AppError::ValidationError(_)) => {}
        _ => panic!("expected a missing database address to be rejected"),
    }
}

#[test]
fn timestamps_parse_with_chrono_compatibility() {
    // The library's stored instants agree with chrono's own parsing.
    let dt = chrono::DateTime::parse_from_rfc3339("2024-05-02T10:00:00Z").unwrap();
    let mut store = telemetry_core::store::Store::new();
    let user = telemetry_core::users::create_user(
        &mut store,
        &telemetry_core::users::CreateUserRequest {
            email: "o@example.com".to_string(),
            name: "O".to_string(),
            password: "pw-pw-pw-pw".to_string(),
            role: None,
        },
        0,
    )
    .unwrap();
    let owner_id: u64 = user.id.parse().unwrap();
    let project =
        telemetry_core::projects::create_project(&mut store, &"p".to_string(), owner_id, 0)
            .unwrap();
    let project_id: u64 = project.id.parse().unwrap();
    let data = telemetry_core::events::EventData {
        event_type: "t".to_string(),
        event_name: None,
        parameters: None,
        timestamp: "2024-05-02T10:00:00Z".to_string(),
        device_id: "d".to_string(),
        platform: "ios".to_string(),
        os_version: None,
        app_version: None,
        ip_address: None,
    };
    telemetry_core::events::create_event(&mut store, project_id, &data, 10).unwrap();
    assert_eq!(store.events[0].timestamp, dt.timestamp());
}
