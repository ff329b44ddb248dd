use openapi_gateway::gateway::{parse_openapi, regex_from_route, ContentType, ParseError};
use openapi_gateway::config::OpenApiConfig;
use openapi_gateway::openapi::{OpenApiV3, Parameter, Path, PathMethod, Server};

#[test]
fn test_valid_regex() {
    let url = "/v1/users/{user_id}";

    let regex = regex_from_route(
        url,
        &vec![Parameter { name: "user_id".to_string(), in_type: "path".to_string() }],
    )
    .unwrap();

    assert_eq!(regex, "^/v1/users/[^/]*$");
}

#[test]
fn test_regex_for_validation() {
    let url = "/v1/users/{user_id}";

    let regex = regex_from_route(
        url,
        &vec![Parameter { name: "user_id".to_string(), in_type: "path".to_string() }],
    )
    .unwrap();

    let route = openapi_gateway::gateway::Route::new(regex, "get".to_string());
    assert!(route.matches_path("/v1/users/123"));
}

#[test]
fn test_regex_for_validation_with_suffix() {
    let url = "/v1/users/{user_id}-suffix/subroute";

    let regex = regex_from_route(
        url,
        &vec![Parameter { name: "user_id".to_string(), in_type: "path".to_string() }],
    )
    .unwrap();

    let route = openapi_gateway::gateway::Route::new(regex, "get".to_string());
    assert!(route.matches_path("/v1/users/123-suffix/subroute"));
}

#[test]
fn pattern_is_anchored() {
    let regex = regex_from_route(
        "/v1/users/{user_id}",
        &vec![Parameter { name: "user_id".to_string(), in_type: "path".to_string() }],
    )
    .unwrap();

    assert!(regex.starts_with('^'));
    assert!(regex.ends_with('$'));

    let plain = regex_from_route("/health", &vec![]).unwrap();
    assert!(plain.starts_with('^'));
    assert!(plain.ends_with('$'));
    assert_eq!(plain, "^/health$");
}

#[test]
fn wildcard_does_not_cross_slashes() {
    let regex = regex_from_route(
        "/v1/users/{user_id}",
        &vec![Parameter { name: "user_id".to_string(), in_type: "path".to_string() }],
    )
    .unwrap();

    let route = openapi_gateway::gateway::Route::new(regex, "get".to_string());
    assert!(!route.matches_path("/v1/users/123/orders"));
    assert!(!route.matches_path("/v2/users/123"));
}

#[test]
fn hyphenated_parameter_name_is_substituted() {
    let regex = regex_from_route(
        "/v1/{user-id}",
        &vec![Parameter { name: "user-id".to_string(), in_type: "path".to_string() }],
    )
    .unwrap();

    assert_eq!(regex, "^/v1/[^/]*$");
}

#[test]
fn non_path_parameters_are_ignored() {
    let regex = regex_from_route(
        "/v1/items/{q}",
        &vec![Parameter { name: "q".to_string(), in_type: "query".to_string() }],
    )
    .unwrap();

    // `{q}` is a query parameter, so the template's braces stay literal.
    assert_eq!(regex, "^/v1/items/\\{q\\}$");
}

fn single_route_doc(template: &str, method: &str) -> OpenApiV3 {
    OpenApiV3 {
        servers: vec![],
        paths: vec![(
            template.to_string(),
            Path {
                parameters: vec![],
                methods: vec![(method.to_string(), PathMethod { parameters: None })],
            },
        )],
    }
}

#[test]
fn parse_openapi_compiles_routes() {
    let config = OpenApiConfig { name: "users".to_string(), url: "http://u".to_string() };
    let doc = single_route_doc("/v1/users", "get");
    let bytes = vec![1u8, 2, 3];

    let entry = parse_openapi(ContentType::JSON, config, &bytes, Ok(doc)).unwrap();

    assert_eq!(entry.routes.len(), 1);
    assert_eq!(entry.routes[0].pattern, "^/v1/users$");
    assert_eq!(entry.routes[0].method, "get");
    let file = entry.openapi_file.as_ref().unwrap();
    assert_eq!(file.content_type, "application/json");
    assert_eq!(file.contents, vec![1u8, 2, 3]);
}

#[test]
fn parse_openapi_trims_server_prefix() {
    let config = OpenApiConfig { name: "users".to_string(), url: "http://u".to_string() };
    let doc = OpenApiV3 {
        servers: vec![Server { url: "/api/".to_string() }],
        paths: vec![(
            "/things".to_string(),
            Path {
                parameters: vec![],
                methods: vec![("get".to_string(), PathMethod { parameters: None })],
            },
        )],
    };

    let entry = parse_openapi(ContentType::JSON, config, &vec![], Ok(doc)).unwrap();

    assert_eq!(entry.routes[0].pattern, "^/api/things$");
}

#[test]
fn parse_openapi_method_parameters_override() {
    let config = OpenApiConfig { name: "users".to_string(), url: "http://u".to_string() };
    let path_level = vec![Parameter { name: "id".to_string(), in_type: "path".to_string() }];
    let doc = OpenApiV3 {
        servers: vec![],
        paths: vec![(
            "/u/{id}".to_string(),
            Path {
                parameters: path_level,
                methods: vec![
                    ("get".to_string(), PathMethod { parameters: None }),
                    (
                        "put".to_string(),
                        PathMethod {
                            parameters: Some(vec![Parameter {
                                name: "other".to_string(),
                                in_type: "query".to_string(),
                            }]),
                        },
                    ),
                ],
            },
        )],
    };

    let entry = parse_openapi(ContentType::JSON, config, &vec![], Ok(doc)).unwrap();

    assert_eq!(entry.routes.len(), 2);
    // `get` inherits the path-level path parameter.
    assert_eq!(entry.routes[0].pattern, "^/u/[^/]*$");
    assert_eq!(entry.routes[0].path_parameters.len(), 1);
    // `put` overrides with a list that holds no path parameter.
    assert_eq!(entry.routes[1].pattern, "^/u/\\{id\\}$");
    assert_eq!(entry.routes[1].path_parameters.len(), 0);
}

#[test]
fn parse_openapi_json_failure_is_reported() {
    let config = OpenApiConfig { name: "users".to_string(), url: "http://u".to_string() };

    let err = parse_openapi(ContentType::JSON, config, &vec![], Err("bad json".to_string()))
        .unwrap_err();

    assert!(matches!(err, ParseError::JsonParseError(m) if m == "bad json"));
}

#[test]
fn parse_openapi_yaml_failure_is_reported() {
    let config = OpenApiConfig { name: "users".to_string(), url: "http://u".to_string() };

    let err = parse_openapi(ContentType::YAML, config, &vec![], Err("bad yaml".to_string()))
        .unwrap_err();

    assert!(matches!(err, ParseError::YamlParseError(m) if m == "bad yaml"));
}
