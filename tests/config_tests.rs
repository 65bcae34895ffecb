use dgossgen::config::{AssertionPolicy, PolicyConfig};

#[test]
fn test_default_config() {
    let config = PolicyConfig::default();
    assert_eq!(config.assert_ports, AssertionPolicy::Optional);
    assert!(!config.assert_file_modes);
    assert!(!config.http_checks);
    assert!(config.assert_ports_enabled());
}

#[test]
fn test_secret_detection() {
    let config = PolicyConfig::default();
    assert!(config.is_secret_key("DB_PASSWORD"));
    assert!(config.is_secret_key("API_TOKEN"));
    assert!(config.is_secret_key("SECRET_KEY"));
    assert!(!config.is_secret_key("APP_PORT"));
    assert!(!config.is_secret_key("LOG_LEVEL"));
}

#[test]
fn secret_detection_ignores_case() {
    let config = PolicyConfig::default();
    assert!(config.is_secret_key("db_password"));
}

#[test]
fn load_or_default_takes_first_loaded() {
    let mut off = PolicyConfig::default();
    off.assert_ports = AssertionPolicy::Off;
    let chosen = PolicyConfig::load_or_default(vec![None, Some(off), Some(PolicyConfig::default())]);
    assert!(!chosen.assert_ports_enabled());
    let fallback = PolicyConfig::load_or_default(vec![None, None]);
    assert!(fallback.assert_ports_enabled());
    assert_eq!(fallback.wait.retries, 60);
    assert_eq!(fallback.secret_patterns.len(), 7);
}
