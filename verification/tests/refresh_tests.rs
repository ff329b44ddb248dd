use openapi_gateway::config::OpenApiConfig;
use openapi_gateway::gateway::{ContentType, GatewayEntry};
use openapi_gateway::dispatch::{dispatch_decision, DispatchDecision};
use openapi_gateway::openapi::{OpenApiV3, Path, PathMethod};
use openapi_gateway::refresh::{
    install_entries, rebuild_table, refresh_entry, select_parser, FetchedDocument,
};

fn users_config() -> OpenApiConfig {
    OpenApiConfig { name: "users".to_string(), url: "http://u/spec".to_string() }
}

fn users_doc() -> OpenApiV3 {
    OpenApiV3 {
        servers: vec![],
        paths: vec![(
            "/v1/users".to_string(),
            Path {
                parameters: vec![],
                methods: vec![("get".to_string(), PathMethod { parameters: None })],
            },
        )],
    }
}

#[test]
fn parser_selection_prefers_the_header() {
    assert_eq!(select_parser(Some("application/yaml"), "http://u/spec"), ContentType::YAML);
    assert_eq!(select_parser(Some("application/yml"), "http://u/spec"), ContentType::YAML);
    assert_eq!(select_parser(Some("application/json"), "http://u/spec.yaml"), ContentType::JSON);
    assert_eq!(select_parser(Some("text/plain"), "http://u/spec.yml"), ContentType::YAML);
    assert_eq!(select_parser(Some("text/plain"), "http://u/spec"), ContentType::JSON);
    assert_eq!(select_parser(None, "http://u/spec.yaml"), ContentType::YAML);
    assert_eq!(select_parser(None, "http://u/spec"), ContentType::JSON);
}

#[test]
fn failed_fetch_yields_an_empty_slot() {
    let entry = refresh_entry(users_config(), None);

    assert!(entry.openapi_file.is_none());
    assert!(entry.routes.is_empty());
    assert_eq!(entry.config.name, "users");
}

#[test]
fn failed_parse_yields_an_empty_slot() {
    let fetch = FetchedDocument {
        content_type: ContentType::JSON,
        bytes: vec![1],
        document: Err("broken".to_string()),
    };
    let entry = refresh_entry(users_config(), Some(fetch));

    assert!(entry.openapi_file.is_none());
    assert!(entry.routes.is_empty());
}

#[test]
fn successful_fetch_populates_the_slot() {
    let fetch = FetchedDocument {
        content_type: ContentType::JSON,
        bytes: vec![1, 2],
        document: Ok(users_doc()),
    };
    let entry = refresh_entry(users_config(), Some(fetch));

    let file = entry.openapi_file.as_ref().unwrap();
    assert_eq!(file.content_type, "application/json");
    assert_eq!(file.contents, vec![1, 2]);
    assert_eq!(entry.routes.len(), 1);
    assert_eq!(entry.routes[0].pattern, "^/v1/users$");
}

#[test]
fn one_failure_empties_only_its_own_slot() {
    let configs = vec![
        users_config(),
        OpenApiConfig { name: "orders".to_string(), url: "http://o/spec".to_string() },
    ];
    let fetches = vec![
        Some(FetchedDocument {
            content_type: ContentType::JSON,
            bytes: vec![9],
            document: Ok(users_doc()),
        }),
        None,
    ];

    let fresh = rebuild_table(&configs, fetches);

    assert_eq!(fresh.len(), 2);
    assert!(fresh[0].openapi_file.is_some());
    assert_eq!(fresh[0].routes.len(), 1);
    assert!(fresh[1].openapi_file.is_none());
    assert!(fresh[1].routes.is_empty());
    assert_eq!(fresh[1].config.name, "orders");
}

#[test]
fn unreachable_upstream_recovers_on_the_next_cycle() {
    let mut table: Vec<GatewayEntry> = vec![refresh_entry(
        users_config(),
        Some(FetchedDocument {
            content_type: ContentType::JSON,
            bytes: vec![1],
            document: Ok(users_doc()),
        }),
    )];
    assert_eq!(dispatch_decision(&table, "/v1/users", "get", false), DispatchDecision::Forward(0));

    // The upstream becomes unreachable: its slot becomes empty, requests 404.
    let fresh = rebuild_table(&vec![users_config()], vec![None]);
    install_entries(&mut table, fresh);
    assert!(table[0].openapi_file.is_none());
    assert_eq!(dispatch_decision(&table, "/v1/users", "get", false), DispatchDecision::NotFound);

    // It comes back: the next refresh restores the routes.
    let fresh = rebuild_table(
        &vec![users_config()],
        vec![Some(FetchedDocument {
            content_type: ContentType::JSON,
            bytes: vec![1],
            document: Ok(users_doc()),
        })],
    );
    install_entries(&mut table, fresh);
    assert_eq!(dispatch_decision(&table, "/v1/users", "get", false), DispatchDecision::Forward(0));
}

#[test]
fn install_replaces_the_whole_table() {
    let mut table = vec![refresh_entry(users_config(), None)];
    let fresh = vec![
        refresh_entry(users_config(), None),
        refresh_entry(
            OpenApiConfig { name: "orders".to_string(), url: "http://o".to_string() },
            None,
        ),
    ];

    install_entries(&mut table, fresh);

    assert_eq!(table.len(), 2);
    assert_eq!(table[0].config.name, "users");
    assert_eq!(table[1].config.name, "orders");
}
