use ai_agent_system::Error;
use ai_agent_system::error::user_friendly_message;

#[test]
fn test_http_status_codes() {
    assert_eq!(Error::ValidationError("x".to_string()).http_status_code(), 400);
    assert_eq!(Error::AuthenticationError("x".to_string()).http_status_code(), 401);
    assert_eq!(Error::AuthorizationError("x".to_string()).http_status_code(), 403);
    assert_eq!(Error::NotFound("x".to_string()).http_status_code(), 404);
    assert_eq!(Error::Conflict("x".to_string()).http_status_code(), 409);
    assert_eq!(Error::RateLimitExceeded("x".to_string()).http_status_code(), 429);
    assert_eq!(Error::InvalidInput("x".to_string()).http_status_code(), 400);
    assert_eq!(Error::ResourceUnavailable("x".to_string()).http_status_code(), 503);
    assert_eq!(Error::Timeout("x".to_string()).http_status_code(), 408);
    assert_eq!(Error::PluginError("x".to_string()).http_status_code(), 500);
    assert_eq!(Error::MachineLearningError("x".to_string()).http_status_code(), 500);
    assert_eq!(Error::NetworkError("x".to_string()).http_status_code(), 503);
    assert_eq!(Error::FileIOError("x".to_string()).http_status_code(), 500);
    assert_eq!(Error::ParseError("x".to_string()).http_status_code(), 400);
    assert_eq!(Error::EncryptionError("x".to_string()).http_status_code(), 500);
    assert_eq!(Error::DecryptionError("x".to_string()).http_status_code(), 500);
    assert_eq!(Error::ApiError("x".to_string()).http_status_code(), 500);
    assert_eq!(Error::BusinessLogicError("x".to_string()).http_status_code(), 400);
    assert_eq!(Error::DatabaseError("x".to_string()).http_status_code(), 500);
    assert_eq!(Error::RedisError("x".to_string()).http_status_code(), 500);
    assert_eq!(Error::SerializationError("x".to_string()).http_status_code(), 500);
    assert_eq!(Error::ConfigurationError("x".to_string()).http_status_code(), 500);
    assert_eq!(Error::ExternalServiceError("x".to_string()).http_status_code(), 502);
    assert_eq!(Error::InternalServerError("x".to_string()).http_status_code(), 500);
}

#[test]
fn test_client_and_server_classification() {
    let client = Error::NotFound("gone".to_string());
    assert!(client.is_client_error());
    assert!(!client.is_server_error());

    let server = Error::DatabaseError("down".to_string());
    assert!(server.is_server_error());
    assert!(!server.is_client_error());

    // A timeout is neither the caller's nor the system's fault class.
    let timeout = Error::Timeout("slow".to_string());
    assert!(!timeout.is_client_error());
    assert!(!timeout.is_server_error());
}

#[test]
fn test_error_message_carries_detail() {
    let e = Error::Conflict("agent name already stored".to_string());
    assert_eq!(e.error_message(), "Conflict occurred: agent name already stored");

    let e = Error::ValidationError("bad input".to_string());
    assert_eq!(e.error_message(), "Validation failed: bad input");
}

#[test]
fn test_user_friendly_message_hides_detail() {
    let e = Error::DatabaseError("connection refused on 10.0.0.7".to_string());
    let shown = user_friendly_message(&e);
    assert_eq!(shown, "A storage error occurred.");
    assert!(!shown.contains("10.0.0.7"));
}
