use openapi_gateway::config::OpenApiConfig;
use openapi_gateway::docs::{content_type_for, docs_file_name, find_document, is_docs_request};
use openapi_gateway::gateway::{GatewayEntry, OpenApiFile};
use openapi_gateway::ui::swagger_ui_config;

fn entry_with_doc(name: &str, content_type: &str, contents: Vec<u8>) -> GatewayEntry {
    GatewayEntry {
        config: OpenApiConfig { name: name.to_string(), url: "".to_string() },
        openapi_file: Some(OpenApiFile {
            content_type: content_type.to_string(),
            contents,
        }),
        routes: vec![],
    }
}

fn empty_entry(name: &str) -> GatewayEntry {
    GatewayEntry {
        config: OpenApiConfig { name: name.to_string(), url: "".to_string() },
        openapi_file: None,
        routes: vec![],
    }
}

#[test]
fn docs_requests_are_exact_gets_under_docs() {
    assert!(is_docs_request("GET", "/docs"));
    assert!(is_docs_request("GET", "/docs/index.html"));
    assert!(!is_docs_request("POST", "/docs"));
    assert!(!is_docs_request("GET", "/doc"));
    assert!(!is_docs_request("GET", "/v1/docs"));
}

#[test]
fn docs_traversal_is_rejected() {
    assert!(docs_file_name("/docs/../etc/passwd").is_none());
    assert!(docs_file_name("/docs/./secret").is_none());
    assert!(docs_file_name("/docs/.hidden").is_none());
}

#[test]
fn docs_file_defaults_to_index() {
    assert_eq!(docs_file_name("/docs").unwrap(), "index.html");
    assert_eq!(docs_file_name("/docs/").unwrap(), "index.html");
    assert_eq!(docs_file_name("/docs//").unwrap(), "index.html");
}

#[test]
fn docs_file_strips_leading_slashes() {
    assert_eq!(docs_file_name("/docs/swagger-ui.css").unwrap(), "swagger-ui.css");
    assert_eq!(docs_file_name("/docs//a/b.js").unwrap(), "a/b.js");
}

#[test]
fn content_types_follow_the_extension() {
    assert_eq!(content_type_for("a.css"), "text/css");
    assert_eq!(content_type_for("a.js"), "text/javascript");
    assert_eq!(content_type_for("a.html"), "text/html");
    assert_eq!(content_type_for("a.png"), "image/png");
    assert_eq!(content_type_for("a.json"), "application/json");
    assert_eq!(content_type_for("a.yml"), "application/yaml");
    assert_eq!(content_type_for("a.yaml"), "application/yaml");
    assert_eq!(content_type_for("a.txt"), "text/plain");
    assert_eq!(content_type_for("no_extension"), "text/plain");
    assert_eq!(content_type_for("x.min.js"), "text/javascript");
}

#[test]
fn swagger_config_lists_entries_in_order() {
    let entries = vec![
        entry_with_doc("users", "application/json", vec![]),
        empty_entry("orders"),
    ];

    let config = swagger_ui_config(&entries);

    assert_eq!(config.urls.len(), 2);
    assert_eq!(config.urls[0].name, "users");
    assert_eq!(config.urls[0].url, "/docs/defs/dXNlcnM=");
    assert_eq!(config.urls[1].name, "orders");
    assert_eq!(config.urls[1].url, "/docs/defs/b3JkZXJz");
}

#[test]
fn find_document_by_encoded_name() {
    let entries = vec![
        entry_with_doc("users", "application/json", vec![1, 2, 3]),
        empty_entry("orders"),
    ];

    // base64("users")
    let (content_type, bytes) = find_document(&entries, "dXNlcnM=").unwrap();
    assert_eq!(content_type, "application/json");
    assert_eq!(bytes, vec![1, 2, 3]);

    // An unknown key finds nothing.
    assert!(find_document(&entries, "missing").is_none());

    // A matching entry without a cached document yields nothing either.
    assert!(find_document(&entries, "b3JkZXJz").is_none());
}

#[test]
fn find_document_takes_the_last_match() {
    let entries = vec![
        entry_with_doc("users", "application/json", vec![1]),
        entry_with_doc("users", "application/yaml", vec![2]),
    ];

    let (content_type, bytes) = find_document(&entries, "dXNlcnM=").unwrap();
    assert_eq!(content_type, "application/yaml");
    assert_eq!(bytes, vec![2]);
}
