use memora_cli::config::{Config, DEFAULT_API_URL};
use memora_cli::output::OutputFormat;

#[test]
fn default_url_is_local() {
    let c = Config::resolve(None).ok().unwrap();
    assert_eq!(c.api_url(), "http://localhost:8080");
    assert_eq!(DEFAULT_API_URL, "http://localhost:8080");
}

#[test]
fn https_url_is_accepted() {
    let c = Config::resolve(Some("https://memory.example.org".to_string())).ok().unwrap();
    assert_eq!(c.api_url(), "https://memory.example.org");
}

#[test]
fn url_without_scheme_is_rejected() {
    let e = Config::resolve(Some("localhost:8080".to_string())).err().unwrap();
    assert_eq!(e.value, "localhost:8080");
    assert_eq!(e.message, "Invalid API URL: localhost:8080. Must start with http:// or https://");
}

#[test]
fn ftp_url_is_rejected() {
    assert!(Config::resolve(Some("ftp://host".to_string())).is_err());
    assert!(Config::resolve(Some("http:/host".to_string())).is_err());
}

#[test]
fn format_names_in_any_case() {
    assert_eq!(OutputFormat::from_str("JSON"), Some(OutputFormat::Json));
    assert_eq!(OutputFormat::from_str("yml"), Some(OutputFormat::Yaml));
    assert_eq!(OutputFormat::from_str("Yaml"), Some(OutputFormat::Yaml));
    assert_eq!(OutputFormat::from_str("Default"), Some(OutputFormat::Pretty));
    assert_eq!(OutputFormat::from_str("pretty"), Some(OutputFormat::Pretty));
    assert_eq!(OutputFormat::from_str("xml"), None);
    assert_eq!(OutputFormat::from_str(""), None);
}

#[test]
fn lowercase_names_only() {
    assert_eq!(OutputFormat::from_lowercase("json"), Some(OutputFormat::Json));
    assert_eq!(OutputFormat::from_lowercase("JSON"), None);
    assert!(OutputFormat::Pretty.is_decorated());
    assert!(!OutputFormat::Json.is_decorated());
}
