use utoipa::openapi::path::{HttpMethod, OperationBuilder, PathItem};
use socle::openapi::{add_bearer_auth, merge_health_paths};
use utoipa::openapi::OpenApi;

fn empty_api() -> OpenApi {
    utoipa::openapi::OpenApiBuilder::new()
        .info(utoipa::openapi::InfoBuilder::new().title("test").version("0.1.0").build())
        .build()
}

#[test]
fn merge_health_paths_idempotency() {
    let mut api = empty_api();
    merge_health_paths(&mut api, "/health");
    merge_health_paths(&mut api, "/health");
    let count = api.tags.as_deref().unwrap_or(&[]).iter().filter(|t| t.name == "health").count();
    assert_eq!(count, 1);
    assert!(api.paths.paths.contains_key("/health/live"));
    assert!(api.paths.paths.contains_key("/health/ready"));
}

#[test]
fn bearer_auth_addon_modify_presence() {
    let mut api = empty_api();
    add_bearer_auth(&mut api);
    let components = api.components.unwrap();
    assert!(components.security_schemes.contains_key("BearerAuth"));
}

#[test]
fn merged_operations_are_gets_with_ids() {
    let mut api = empty_api();
    merge_health_paths(&mut api, "/hc");
    let live = api.paths.paths.get("/hc/live").unwrap();
    assert_eq!(live.get.as_ref().unwrap().operation_id.as_deref(), Some("liveness"));
    let ready = api.paths.paths.get("/hc/ready").unwrap();
    assert_eq!(ready.get.as_ref().unwrap().operation_id.as_deref(), Some("readiness"));
}

#[test]
fn health_operations_land_at_their_paths() {
    let mut doc = utoipa::openapi::OpenApiBuilder::new().build();
    socle::openapi::merge_health_paths(&mut doc, "/health");
    let id = |p: &str| {
        doc.paths.paths[p].get.as_ref().and_then(|o| o.operation_id.clone())
    };
    assert_eq!(id("/health/live").as_deref(), Some("liveness"));
    assert_eq!(id("/health/ready").as_deref(), Some("readiness"));
}

#[test]
fn an_existing_get_operation_is_kept() {
    let mut doc = utoipa::openapi::OpenApiBuilder::new().build();
    doc.paths.paths.insert(
        "/health/live".to_string(),
        PathItem::new(HttpMethod::Get, OperationBuilder::new().operation_id(Some("mine")).build()),
    );
    socle::openapi::merge_health_paths(&mut doc, "/health");
    let live = doc.paths.paths["/health/live"].get.as_ref().unwrap();
    assert_eq!(live.operation_id.as_deref(), Some("mine"));
}

#[test]
fn health_operations_carry_their_summaries_and_responses() {
    let mut doc = utoipa::openapi::OpenApiBuilder::new().build();
    merge_health_paths(&mut doc, "/hc");
    let live = doc.paths.paths["/hc/live"].get.as_ref().unwrap();
    assert_eq!(live.summary.as_deref(), Some("Liveness probe"));
    assert_eq!(live.tags.as_deref(), Some(&["health".to_string()][..]));
    assert_eq!(live.responses.responses.keys().collect::<Vec<_>>(), vec!["200"]);
    let ready = doc.paths.paths["/hc/ready"].get.as_ref().unwrap();
    assert_eq!(ready.summary.as_deref(), Some("Readiness probe"));
    assert_eq!(ready.responses.responses.keys().collect::<Vec<_>>(), vec!["200", "503"]);
}
