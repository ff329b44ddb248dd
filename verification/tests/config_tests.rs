use openapi_gateway::config::{
    config_from_env, cors_from_env, parse_method_list, split_and_trim, trim, upstream_from_env,
    ConfigError, HttpMethod,
};

#[test]
fn method_names_round_trip() {
    let names = ["GET", "POST", "PUT", "PATCH", "DELETE", "OPTIONS", "HEAD"];
    for name in names {
        let m = HttpMethod::from_str(name).unwrap();
        assert_eq!(m.as_str(), name);
    }
}

#[test]
fn invalid_method_is_rejected() {
    let err = HttpMethod::from_str("get").unwrap_err();
    assert!(matches!(err, ConfigError::InvalidHttpMethod(s) if s == "get"));

    let err = HttpMethod::from_str("TRACE").unwrap_err();
    assert!(matches!(err, ConfigError::InvalidHttpMethod(s) if s == "TRACE"));
}

#[test]
fn trim_removes_blanks_on_both_sides() {
    assert_eq!(trim("  GET \t"), "GET");
    assert_eq!(trim(""), "");
    assert_eq!(trim(" \t "), "");
    assert_eq!(trim("a b"), "a b");
}

#[test]
fn split_and_trim_keeps_empty_pieces() {
    assert_eq!(split_and_trim("a, b ,c"), vec!["a", "b", "c"]);
    assert_eq!(split_and_trim("a,"), vec!["a", ""]);
    assert_eq!(split_and_trim(""), vec![""]);
}

#[test]
fn parse_method_list_trims_and_parses() {
    let ms = parse_method_list("GET, POST").unwrap();
    assert_eq!(ms, vec![HttpMethod::GET, HttpMethod::POST]);

    let err = parse_method_list("GET, FOO").unwrap_err();
    assert!(matches!(err, ConfigError::InvalidHttpMethod(s) if s == "FOO"));
}

#[test]
fn cors_needs_all_three_values() {
    let r = cors_from_env(None, None, None).unwrap();
    assert!(r.is_none());

    let err = cors_from_env(Some("https://x".to_string()), None, None).unwrap_err();
    assert!(matches!(err, ConfigError::IncompleteCors));

    let cors = cors_from_env(
        Some("https://x".to_string()),
        Some("GET, POST".to_string()),
        Some("X-A, X-B".to_string()),
    )
    .unwrap()
    .unwrap();
    assert_eq!(cors.allowed_origin, "https://x");
    assert_eq!(cors.allowed_methods, vec![HttpMethod::GET, HttpMethod::POST]);
    assert_eq!(cors.allowed_headers, vec!["X-A", "X-B"]);
}

#[test]
fn upstream_needs_both_url_and_name() {
    let c = upstream_from_env(Some("http://u".to_string()), Some("users".to_string())).unwrap();
    assert_eq!(c.name, "users");
    assert_eq!(c.url, "http://u");

    assert!(upstream_from_env(Some("http://u".to_string()), None).is_none());
    assert!(upstream_from_env(None, Some("users".to_string())).is_none());
    assert!(upstream_from_env(None, None).is_none());
}

#[test]
fn env_config_defaults_the_cron() {
    let config = config_from_env(None, vec![], None, None, None).unwrap();
    assert_eq!(config.reload_cron, "* * * * *");
    assert!(config.global_cors.is_none());
    assert!(config.openapi_urls.is_empty());

    let config = config_from_env(Some("0 * * * *".to_string()), vec![], None, None, None)
        .unwrap();
    assert_eq!(config.reload_cron, "0 * * * *");
}

#[test]
fn env_config_fails_on_partial_cors() {
    let err = config_from_env(None, vec![], None, Some("GET".to_string()), None).unwrap_err();
    assert!(matches!(err, ConfigError::IncompleteCors));
}
