use whisper_client::config::{decode_config, default_config_text, Config};

#[test]
fn test_default_config() {
    let config = Config::default();
    assert_eq!(config.service_url, "http://localhost:9673");
}

#[test]
fn test_config_with_custom_url() {
    let url = "http://example.com:8000".to_string();
    let config = Config::with_url(url.clone());
    assert_eq!(config.service_url, url);
}

#[test]
fn test_decode_config_well_formed() {
    let config = decode_config("{\"service_url\": \"http://example.org:1234\"}").unwrap();
    assert_eq!(config.service_url, "http://example.org:1234");
}

#[test]
fn test_decode_config_missing_field() {
    assert!(decode_config("{\"other\": 1}").is_none());
}

#[test]
fn test_decode_config_wrong_type() {
    assert!(decode_config("{\"service_url\": 17}").is_none());
}

#[test]
fn test_decode_config_not_json() {
    assert!(decode_config("definitely not json").is_none());
}

#[test]
fn test_default_config_text_round_trip() {
    let text = default_config_text();
    let config = decode_config(&text).unwrap();
    assert_eq!(config.service_url, "http://localhost:9673");
    // The written file is ordinary JSON as any reader sees it.
    let value: serde_json::Value = serde_json::from_str(&text).unwrap();
    assert_eq!(value["service_url"], serde_json::Value::String("http://localhost:9673".to_string()));
}
