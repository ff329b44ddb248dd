use openapi_gateway::config::OpenApiConfig;
use openapi_gateway::gateway::{GatewayEntry, OpenApiFile, Route};

fn entry_with_route(routes: Vec<Route>) -> GatewayEntry {
    GatewayEntry {
        config: OpenApiConfig { name: "".to_string(), url: "".to_string() },
        openapi_file: Some(OpenApiFile { content_type: "".to_string(), contents: vec![] }),
        routes,
    }
}

#[test]
fn test_no_match_on_method() {
    let entry = entry_with_route(vec![
        Route::new(".*".to_string(), "put".to_string()),
        Route::new(".*".to_string(), "post".to_string()),
    ]);

    assert!(!entry.contains_route_and_method("/test", "get"))
}

#[test]
fn test_match_route_and_method() {
    let entry = entry_with_route(vec![
        Route::new(".*".to_string(), "put".to_string()),
        Route::new(".*".to_string(), "post".to_string()),
        Route::new(".*".to_string(), "get".to_string()),
    ]);

    assert!(entry.contains_route_and_method("/test", "get"))
}

#[test]
fn method_comparison_ignores_case() {
    let entry = entry_with_route(vec![Route::new(".*".to_string(), "GET".to_string())]);

    assert!(entry.contains_route_and_method("/test", "get"));
    assert!(entry.contains_route_and_method("/test", "GET"));
    assert!(entry.contains_route_and_method("/test", "GeT"));
    assert!(!entry.contains_route_and_method("/test", "post"));
}

#[test]
fn contains_route_ignores_method() {
    let entry = entry_with_route(vec![Route::new("^/a$".to_string(), "put".to_string())]);

    assert!(entry.contains_route("/a"));
    assert!(!entry.contains_route("/b"));
}

#[test]
fn route_with_bad_pattern_matches_nothing() {
    let entry = entry_with_route(vec![Route::new("[".to_string(), "get".to_string())]);

    assert!(!entry.contains_route("/a"));
    assert!(!entry.contains_route_and_method("/a", "get"));
}
