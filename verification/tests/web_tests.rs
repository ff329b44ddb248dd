use openapi_gateway::config::OpenApiConfig;
use openapi_gateway::gateway::{parse_openapi, ContentType};
use openapi_gateway::dispatch::matching_route_with_least_matching_parameters;
use openapi_gateway::openapi::{OpenApiV3, Parameter, Path, PathMethod};
use openapi_gateway::web::{forward_target, scheme_kind, SchemeKind};

#[test]
fn uri_is_split_into_parts() {
    let config = OpenApiConfig {
        name: "users".to_string(),
        url: "https://api.example.com/openapi.json".to_string(),
    };
    let parts = config.uri().unwrap();
    assert_eq!(parts.scheme, "https");
    assert_eq!(parts.host, "api.example.com");
    assert!(parts.port.is_none());

    let config = OpenApiConfig {
        name: "users".to_string(),
        url: "http://localhost:8081/spec".to_string(),
    };
    let parts = config.uri().unwrap();
    assert_eq!(parts.scheme, "http");
    assert_eq!(parts.host, "localhost");
    assert_eq!(parts.port.unwrap(), "8081");

    let config = OpenApiConfig { name: "u".to_string(), url: "not a url".to_string() };
    assert!(config.uri().is_none());
}

#[test]
fn forward_uri_and_host_header() {
    let config = OpenApiConfig {
        name: "users".to_string(),
        url: "https://api.example.com/openapi.json".to_string(),
    };
    let parts = config.uri().unwrap();

    let (uri, host) = forward_target(&parts, "/v1/users/42?full=1");

    assert_eq!(uri, "https://api.example.com/v1/users/42?full=1");
    // The Host header carries the bare host, never the port.
    assert_eq!(host, "api.example.com");
}

#[test]
fn forward_uri_keeps_the_port() {
    let config = OpenApiConfig {
        name: "users".to_string(),
        url: "http://localhost:8081/spec".to_string(),
    };
    let parts = config.uri().unwrap();

    let (uri, host) = forward_target(&parts, "/v1/users/42");

    assert_eq!(uri, "http://localhost:8081/v1/users/42");
    assert_eq!(host, "localhost");
}

#[test]
fn scheme_picks_the_transport() {
    assert_eq!(scheme_kind("http"), Some(SchemeKind::Http));
    assert_eq!(scheme_kind("https"), Some(SchemeKind::Https));
    assert_eq!(scheme_kind("ftp"), None);
}

#[test]
fn declared_route_is_forwarded_to_upstream() {
    let config = OpenApiConfig {
        name: "users".to_string(),
        url: "https://api.example.com/openapi.json".to_string(),
    };
    let doc = OpenApiV3 {
        servers: vec![],
        paths: vec![(
            "/v1/users/{id}".to_string(),
            Path {
                parameters: vec![Parameter {
                    name: "id".to_string(),
                    in_type: "path".to_string(),
                }],
                methods: vec![("get".to_string(), PathMethod { parameters: None })],
            },
        )],
    };
    let entry = parse_openapi(ContentType::JSON, config, &vec![], Ok(doc)).unwrap();
    let entries = vec![entry];

    let idx = matching_route_with_least_matching_parameters("/v1/users/42", "GET", &entries)
        .unwrap();
    let parts = entries[idx].config.uri().unwrap();
    let (uri, host) = forward_target(&parts, "/v1/users/42");

    assert_eq!(uri, "https://api.example.com/v1/users/42");
    assert_eq!(host, "api.example.com");
}
