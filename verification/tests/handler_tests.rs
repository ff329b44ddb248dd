use openapi_gateway::config::{CorsConfig, HttpMethod, OpenApiConfig};
use openapi_gateway::dispatch::{
    any_entry_claims_path, cors_headers, dispatch_decision, join_strings,
    matching_route_with_least_matching_parameters, DispatchDecision,
};
use openapi_gateway::gateway::{GatewayEntry, Route};
use openapi_gateway::openapi::Parameter;

fn entry(name: &str, routes: Vec<Route>) -> GatewayEntry {
    GatewayEntry {
        config: OpenApiConfig { name: name.to_string(), url: "".to_string() },
        openapi_file: None,
        routes,
    }
}

#[test]
fn route_with_least_parameters() {
    let entry1 = entry(
        "entry1",
        vec![Route::new("/foo/bar".to_string(), "GET".to_string())],
    );

    let entry2 = entry(
        "entry2",
        vec![Route {
            pattern: "/foo/.*".to_string(),
            method: "GET".to_string(),
            path_parameters: vec![Parameter {
                name: "par".to_string(),
                in_type: "path".to_string(),
            }],
        }],
    );

    let entries = vec![entry1, entry2];

    let route = matching_route_with_least_matching_parameters("/foo/bar", "GET", &entries);

    assert!(route.is_some());
    assert_eq!("entry1", entries[route.unwrap()].config.name);

    let route = matching_route_with_least_matching_parameters("/foo/not-bar", "GET", &entries);

    assert!(route.is_some());
    assert_eq!("entry2", entries[route.unwrap()].config.name);
}

#[test]
fn literal_beats_wildcard_regardless_of_order() {
    let wildcard = entry(
        "wild",
        vec![Route {
            pattern: "^/items/[^/]*$".to_string(),
            method: "get".to_string(),
            path_parameters: vec![Parameter {
                name: "name".to_string(),
                in_type: "path".to_string(),
            }],
        }],
    );
    let literal = entry(
        "lit",
        vec![Route::new("^/items/featured$".to_string(), "get".to_string())],
    );

    let entries = vec![wildcard, literal];

    let idx = matching_route_with_least_matching_parameters("/items/featured", "GET", &entries)
        .unwrap();
    assert_eq!("lit", entries[idx].config.name);

    let idx = matching_route_with_least_matching_parameters("/items/shoe", "GET", &entries)
        .unwrap();
    assert_eq!("wild", entries[idx].config.name);
}

#[test]
fn ties_fall_to_the_first_entry() {
    let a = entry("a", vec![Route::new("^/x$".to_string(), "get".to_string())]);
    let b = entry("b", vec![Route::new("^/x$".to_string(), "get".to_string())]);

    let entries = vec![a, b];

    let idx = matching_route_with_least_matching_parameters("/x", "get", &entries).unwrap();
    assert_eq!("a", entries[idx].config.name);
}

#[test]
fn no_match_yields_none() {
    let entries = vec![entry("a", vec![Route::new("^/x$".to_string(), "get".to_string())])];

    assert!(matching_route_with_least_matching_parameters("/y", "get", &entries).is_none());
    assert!(matching_route_with_least_matching_parameters("/x", "post", &entries).is_none());
}

#[test]
fn cors_short_circuit_on_unclaimed_method() {
    let entries = vec![entry(
        "users",
        vec![Route {
            pattern: "^/v1/users/[^/]*$".to_string(),
            method: "get".to_string(),
            path_parameters: vec![Parameter {
                name: "id".to_string(),
                in_type: "path".to_string(),
            }],
        }],
    )];

    assert!(any_entry_claims_path(&entries, "/v1/users/1"));

    // The method is not claimed, the path is, and CORS is configured.
    let d = dispatch_decision(&entries, "/v1/users/1", "OPTIONS", true);
    assert_eq!(d, DispatchDecision::CorsShortCircuit);

    // Without CORS the same miss is a plain not-found.
    let d = dispatch_decision(&entries, "/v1/users/1", "OPTIONS", false);
    assert_eq!(d, DispatchDecision::NotFound);

    // An unclaimed path is not-found even with CORS.
    let d = dispatch_decision(&entries, "/nope", "OPTIONS", true);
    assert_eq!(d, DispatchDecision::NotFound);

    // A claimed pair forwards.
    let d = dispatch_decision(&entries, "/v1/users/1", "get", true);
    assert_eq!(d, DispatchDecision::Forward(0));
}

#[test]
fn cors_headers_join_configuration_in_order() {
    let cors = CorsConfig {
        allowed_origin: "https://x".to_string(),
        allowed_methods: vec![HttpMethod::GET, HttpMethod::POST],
        allowed_headers: vec!["X-A".to_string()],
    };

    let headers = cors_headers(&cors);

    assert_eq!(headers.len(), 3);
    assert_eq!(headers[0].0, "Access-Control-Allow-Origin");
    assert_eq!(headers[0].1, "https://x");
    assert_eq!(headers[1].0, "Access-Control-Allow-Methods");
    assert_eq!(headers[1].1, "GET, POST");
    assert_eq!(headers[2].0, "Access-Control-Allow-Headers");
    assert_eq!(headers[2].1, "X-A");
}

#[test]
fn join_strings_uses_comma_space() {
    assert_eq!(join_strings(&vec![]), "");
    assert_eq!(join_strings(&vec!["a".to_string()]), "a");
    assert_eq!(
        join_strings(&vec!["a".to_string(), "b".to_string(), "c".to_string()]),
        "a, b, c"
    );
}
