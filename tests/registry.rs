use datafusion_wasm::error::StoreError;
use datafusion_wasm::registry::{decimal_string, scheme_matches, BackendPlan, OpendalRegistry, ResourceLocator, S3Config};
use datafusion_wasm::result_format::ResultFormat;

fn locator(scheme: &str, host: &str, port: Option<u16>) -> ResourceLocator {
    ResourceLocator { scheme: scheme.to_string(), host: host.to_string(), port }
}

fn http_plan(registry: &OpendalRegistry, loc: &ResourceLocator) -> (String, Vec<(String, String)>) {
    match registry.resolve(loc) {
        Ok(BackendPlan::Http { endpoint, headers }) => (endpoint, headers),
        other => panic!("expected an http plan, got {:?}", other),
    }
}

fn config(bucket: &str) -> S3Config {
    S3Config {
        root: "/data".to_string(),
        bucket: bucket.to_string(),
        region: "us-east-1".to_string(),
        access_key_id: "key".to_string(),
        secret_access_key: "SECRET-REDACTED".to_string(),
    }
}

#[test]
fn http_endpoint_uses_host_and_port() {
    let registry = OpendalRegistry::new();
    assert_eq!(http_plan(&registry, &locator("http", "example.com", Some(8080))).0, "http://example.com:8080");
    assert_eq!(http_plan(&registry, &locator("https", "h", Some(9))).0, "https://h:9");
    assert_eq!(http_plan(&registry, &locator("http", "h", Some(65535))).0, "http://h:65535");
    assert_eq!(http_plan(&registry, &locator("http", "h", Some(0))).0, "http://h:0");
}

#[test]
fn http_endpoint_defaults_port_per_scheme() {
    let registry = OpendalRegistry::new();
    assert_eq!(http_plan(&registry, &locator("http", "example.com", None)).0, "http://example.com:80");
    assert_eq!(http_plan(&registry, &locator("https", "example.com", None)).0, "https://example.com:443");
    assert_eq!(http_plan(&registry, &locator("HTTPS", "example.com", None)).0, "https://example.com:443");
}

#[test]
fn http_plans_allow_any_origin() {
    let registry = OpendalRegistry::new();
    for loc in [locator("http", "a", None), locator("Https", "b", Some(1)), locator("HTTP", "c", Some(80))] {
        let headers = http_plan(&registry, &loc).1;
        assert!(headers.contains(&("access-control-allow-origin".to_string(), "*".to_string())));
    }
}

#[test]
fn s3_plan_uses_current_config() {
    let mut registry = OpendalRegistry::new();
    registry.set_s3_config(config("first"));
    match registry.resolve(&locator("S3", "bucket", None)) {
        Ok(BackendPlan::S3 { config, endpoint }) => {
            assert_eq!(config.bucket, "first");
            assert_eq!(endpoint, "https://s3.amazonaws.com");
        }
        other => panic!("{:?}", other),
    }
    registry.set_s3_config(config("second"));
    match registry.resolve(&locator("s3", "bucket", None)) {
        Ok(BackendPlan::S3 { config, .. }) => {
            assert_eq!(config.bucket, "second");
            assert_eq!(config.secret_access_key, "SECRET-REDACTED");
        }
        other => panic!("{:?}", other),
    }
}

#[test]
fn unknown_scheme_has_no_backend() {
    let registry = OpendalRegistry::new();
    for scheme in ["ftp", "file", "", "s3x", "httpss"] {
        assert!(matches!(registry.resolve(&locator(scheme, "h", None)), Err(StoreError::BackendUnavailable)));
        assert!(matches!(registry.build_from_url(&locator(scheme, "h", None)), Err(StoreError::BackendUnavailable)));
    }
}

#[test]
fn http_operator_is_built() {
    let registry = OpendalRegistry::new();
    assert!(registry.build_from_url(&locator("http", "localhost", Some(8000))).is_ok());
}

#[test]
fn new_registry_has_empty_config() {
    let registry = OpendalRegistry::new();
    assert!(registry.config.bucket.is_empty());
    assert!(registry.config.root.is_empty());
    let d = S3Config::default();
    assert!(d.region.is_empty() && d.access_key_id.is_empty() && d.secret_access_key.is_empty());
}

#[test]
fn scheme_comparison_ignores_ascii_case() {
    assert!(scheme_matches("HtTp", "http"));
    assert!(scheme_matches("s3", "s3"));
    assert!(!scheme_matches("http", "https"));
    assert!(!scheme_matches("hxtp", "http"));
}

#[test]
fn port_numerals() {
    assert_eq!(decimal_string(0), "0");
    assert_eq!(decimal_string(7), "7");
    assert_eq!(decimal_string(10), "10");
    assert_eq!(decimal_string(443), "443");
    assert_eq!(decimal_string(65535), "65535");
}

#[test]
fn result_formats_differ() {
    assert_ne!(ResultFormat::Table, ResultFormat::Json);
}
