use ai_agent_system::config::AppConfig;

#[test]
fn test_development_config() {
    let config = AppConfig::development();
    assert_eq!(config.app.environment, "development");
    assert_eq!(config.app.debug, true);
    assert_eq!(config.app.port, 8080);
}

#[test]
fn test_production_config() {
    let config = AppConfig::production(None, None, "prod-secret".to_string());
    assert_eq!(config.app.environment, "production");
    assert_eq!(config.app.debug, false);
    assert_eq!(config.app.port, 8080);
}

#[test]
fn test_test_config() {
    let config = AppConfig::test();
    assert_eq!(config.app.environment, "test");
    assert_eq!(config.app.debug, true);
    assert_eq!(config.app.port, 0);
}

#[test]
fn test_config_validation() {
    let config = AppConfig::development();
    assert!(config.validate().is_ok());
}

#[test]
fn test_config_validation_rejects_zero_port() {
    // The fixed test configuration binds port zero, which validation
    // rejects with the port message.
    let config = AppConfig::test();
    let err = config.validate().unwrap_err();
    assert_eq!(err, "App port cannot be 0");
}

#[test]
fn test_config_validation_rejects_empty_name() {
    let mut config = AppConfig::development();
    config.app.name = String::new();
    let err = config.validate().unwrap_err();
    assert_eq!(err, "App name cannot be empty");
}

#[test]
fn test_config_validation_rejects_empty_jwt_secret() {
    let mut config = AppConfig::development();
    config.security.jwt_secret = String::new();
    let err = config.validate().unwrap_err();
    assert_eq!(err, "JWT secret cannot be empty");
}

#[test]
fn test_production_config_uses_supplied_addresses() {
    let config = AppConfig::production(
        Some("postgresql://db.internal/agents".to_string()),
        Some("redis://cache.internal:6379".to_string()),
        "s3cret".to_string(),
    );
    assert_eq!(config.database.url, "postgresql://db.internal/agents");
    assert_eq!(config.redis.url, "redis://cache.internal:6379");
    assert_eq!(config.security.jwt_secret, "s3cret");
    assert!(config.validate().is_ok());
}
