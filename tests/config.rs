use antenna_relay::config::{Config, ConfigError};
use antenna_relay::mapping::MappingFault;

fn some(s: &str) -> Option<String> {
    Some(s.to_string())
}

#[test]
fn builds_configuration() {
    let c = Config::from_settings(
        some("SECRET-REDACTED"),
        some("https://example.test"),
        some("8z4f1x9k0a=https://hook.example/1"),
    )
    .unwrap();
    assert_eq!(c.token, "SECRET-REDACTED");
    assert_eq!(c.service_url, "https://example.test/");
    assert_eq!(c.streaming_url, "wss://example.test/streaming");
    assert_eq!(c.mappings.len(), 1);
    assert_eq!(c.mappings[0].webhook, "https://hook.example/1");
}

#[test]
fn missing_token() {
    let r = Config::from_settings(None, some("https://example.test"), some("8z4f1x9k0a=h"));
    assert!(matches!(r, Err(ConfigError::MissingToken)));
}

#[test]
fn missing_service_url() {
    let r = Config::from_settings(some("t"), None, some("8z4f1x9k0a=h"));
    assert!(matches!(r, Err(ConfigError::MissingServiceUrl)));
}

#[test]
fn missing_mappings() {
    let r = Config::from_settings(some("t"), some("https://example.test"), None);
    assert!(matches!(r, Err(ConfigError::MissingMappings)));
}

#[test]
fn all_missing_reports_token() {
    let r = Config::from_settings(None, None, None);
    assert!(matches!(r, Err(ConfigError::MissingToken)));
}

#[test]
fn invalid_service_url() {
    let r = Config::from_settings(some("t"), some("example"), some("8z4f1x9k0a=h"));
    assert!(matches!(r, Err(ConfigError::InvalidServiceUrl(_))));
}

#[test]
fn streaming_path_cannot_be_joined() {
    let r = Config::from_settings(some("t"), some("mailto:someone@example.test"), some("8z4f1x9k0a=h"));
    assert!(matches!(r, Err(ConfigError::StreamingUrl(_))));
}

#[test]
fn secure_scheme_refused() {
    let r = Config::from_settings(some("t"), some("file:///srv/app"), some("8z4f1x9k0a=h"));
    assert!(matches!(r, Err(ConfigError::SecureScheme)));
}

#[test]
fn malformed_mapping() {
    let r = Config::from_settings(some("t"), some("https://example.test"), some("8z4f1x9k0a"));
    match r {
        Err(ConfigError::Mapping(e)) => assert_eq!(e.fault, MappingFault::MissingSinkAddress),
        other => panic!("unexpected {:?}", other),
    }
}
