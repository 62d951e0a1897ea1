use bigtable_rs::connection::{
    access_scope, emulator_uri, endpoint_count, plan_connection, plan_endpoint, table_prefix,
    Scope, SERVICE_DOMAIN, SERVICE_URI,
};
use std::time::Duration;

#[test]
fn production_prefix_names_project_and_instance() {
    assert_eq!(table_prefix("p1", "i1", false), "projects/p1/instances/i1/tables/");
}

#[test]
fn emulator_prefix_ignores_the_project() {
    assert_eq!(table_prefix("p1", "i1", true), "projects/emulator/instances/i1/tables/");
}

#[test]
fn prefix_of_empty_names() {
    assert_eq!(table_prefix("", "", false), "projects//instances//tables/");
}

#[test]
fn emulator_uri_is_clear_text_http() {
    assert_eq!(emulator_uri("localhost:8086"), "http://localhost:8086");
}

#[test]
fn at_least_one_endpoint() {
    assert_eq!(endpoint_count(0), 1);
    assert_eq!(endpoint_count(1), 1);
    assert_eq!(endpoint_count(4), 4);
    assert_eq!(endpoint_count(usize::MAX), usize::MAX);
}

#[test]
fn scope_follows_read_only() {
    assert_eq!(access_scope(true), Scope::BigTableDataReadOnly);
    assert_eq!(access_scope(false), Scope::BigTableData);
}

#[test]
fn plan_for_an_emulator() {
    let plan = plan_connection(
        Some("127.0.0.1:9000".to_string()),
        "proj",
        "inst",
        true,
        0,
        Some(Duration::from_secs(3)),
    );
    assert_eq!(plan.table_prefix, "projects/emulator/instances/inst/tables/");
    assert_eq!(plan.scope, None);
    assert_eq!(plan.endpoints.len(), 1);
    let endpoint = &plan.endpoints[0];
    assert_eq!(endpoint.uri, "http://127.0.0.1:9000");
    assert_eq!(endpoint.tls_domain, None);
    assert!(endpoint.keep_alive_while_idle);
    assert_eq!(endpoint.timeout, Some(Duration::from_secs(3)));
}

#[test]
fn plan_for_the_service() {
    let plan = plan_connection(None, "proj", "inst", true, 3, None);
    assert_eq!(plan.table_prefix, "projects/proj/instances/inst/tables/");
    assert_eq!(plan.scope, Some(Scope::BigTableDataReadOnly));
    assert_eq!(plan.endpoints.len(), 3);
    for endpoint in &plan.endpoints {
        assert_eq!(endpoint.uri, "https://bigtable.googleapis.com");
        assert_eq!(endpoint.tls_domain.as_deref(), Some("bigtable.googleapis.com"));
        assert!(endpoint.keep_alive_while_idle);
        assert_eq!(endpoint.timeout, None);
    }
    let plan = plan_connection(None, "proj", "inst", false, 1, None);
    assert_eq!(plan.scope, Some(Scope::BigTableData));
    assert_eq!(plan.endpoints.len(), 1);
}

#[test]
fn planned_endpoints_can_be_opened() {
    let emulator = plan_endpoint(Some("localhost:8086"), Some(Duration::from_millis(5)));
    let endpoint = tonic::transport::Channel::from_shared(emulator.uri).unwrap();
    assert_eq!(endpoint.uri().to_string(), "http://localhost:8086/");
    let service = plan_endpoint(None, None);
    assert_eq!(service.tls_domain.as_deref(), Some(SERVICE_DOMAIN));
    let endpoint = tonic::transport::Channel::from_shared(service.uri).unwrap();
    assert_eq!(endpoint.uri().host(), Some(SERVICE_DOMAIN));
    assert_eq!(endpoint.uri().scheme_str(), Some("https"));
}

#[test]
fn service_address_and_domain() {
    assert_eq!(SERVICE_URI, "https://bigtable.googleapis.com");
    assert_eq!(SERVICE_DOMAIN, "bigtable.googleapis.com");
}
