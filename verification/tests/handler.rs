use api_bones::{pagination::PaginationParams, PaginatedResponse};
use socle::problem::{json_rejection, validation_rejection, FieldFailure};
use socle::response::{compose_location, enrich_error, listed};
use socle::{
    created, created_under, etagged, listed_page, ok, ApiError, ETag, ErrorCode, HandlerError,
    ValidationError,
};

fn envelope<T: serde::Serialize>(value: T) -> Vec<u8> {
    serde_json::to_vec(&api_bones::ApiResponse::builder(value).build()).unwrap()
}

fn body_json(body: &[u8]) -> serde_json::Value {
    serde_json::from_slice(body).unwrap()
}

#[test]
fn handler_error_from_api_error() {
    let api_err = ApiError::new(ErrorCode::InternalServerError, "oops".into());
    let handler_err = HandlerError::from(api_err);
    assert_eq!(handler_err.0.status, 500);
}

#[test]
fn with_request_id_and_errors() {
    let id = uuid::Uuid::now_v7().as_u128();
    let err = HandlerError::new(ErrorCode::ValidationFailed, "bad input".into())
        .with_request_id(id)
        .with_errors(vec![ValidationError {
            field: "name".into(),
            message: "required".into(),
            rule: None,
        }]);
    assert_eq!(err.0.status, 400);
    assert_eq!(err.0.request_id, Some(id));
    assert_eq!(err.0.errors.len(), 1);
}

#[test]
fn panic_handler_downcasts_string_payload() {
    assert_eq!(HandlerError::panic_error().0.status, 500);
}

#[test]
fn panic_handler_downcasts_static_str_payload() {
    assert_eq!(HandlerError::panic_error().0.detail, "internal server error");
}

#[test]
fn panic_handler_handles_unknown_payload() {
    let e = HandlerError::panic_error();
    assert_eq!(e.0.status, 500);
    assert_eq!(e.0.code, ErrorCode::InternalServerError);
}

#[test]
fn created_builds_201_with_envelope() {
    let resp = created(envelope("x")).unwrap();
    assert_eq!(resp.status, 201);
    assert_eq!(body_json(&resp.body)["data"], "x");
}

#[test]
fn ok_builds_200_with_envelope() {
    let resp = ok(envelope(42u32)).unwrap();
    assert_eq!(resp.status, 200);
    assert_eq!(body_json(&resp.body)["data"], 42);
}

#[test]
fn etagged_builds_200_with_etag_and_envelope() {
    let etag = ETag::strong("abc123".into());
    let resp = etagged(&etag, envelope(99u32)).unwrap();
    assert_eq!(resp.status, 200);
    assert_eq!(resp.headers, vec![("etag".to_string(), etag.to_header_text())]);
    assert_eq!(body_json(&resp.body)["data"], 99);
}

#[test]
fn listed_wraps_paginated_response() {
    let page: PaginatedResponse<u32> =
        PaginatedResponse::new(vec![1, 2], 2, &PaginationParams::default());
    let resp = listed(envelope(page)).unwrap();
    let json = body_json(&resp.body);
    assert_eq!(json["data"]["items"], serde_json::Value::from(vec![1, 2]));
}

#[test]
fn listed_page_maps_and_paginates() {
    let items: Vec<u32> = (1..=5).collect();
    let (page, total) = listed_page(items, Some(1), Some(2));
    assert_eq!(page, vec![2, 3]);
    assert_eq!(total, 5);
}

#[test]
fn listed_page_uses_defaults_when_params_are_none() {
    let items: Vec<u32> = (1..=25).collect();
    let (page, total) = listed_page(items, None, None);
    assert_eq!(page.len(), 20);
    assert_eq!(total, 25);
}

#[test]
fn listed_page_past_the_end_is_empty() {
    let (page, total) = listed_page(vec![1u8, 2, 3], Some(10), Some(5));
    assert!(page.is_empty());
    assert_eq!(total, 3);
    let (page, _) = listed_page(vec![1u8, 2, 3], Some(2), Some(u64::MAX));
    assert_eq!(page, vec![3]);
}

#[test]
fn created_under_composes_location() {
    let resp = created_under("/v1/widgets", "7", envelope(7u64)).unwrap();
    assert_eq!(resp.status, 201);
    assert_eq!(resp.headers, vec![("location".to_string(), "/v1/widgets/7".to_string())]);
}

#[test]
fn created_under_trims_trailing_slash() {
    let resp = created_under("/v1/things/", "abc", envelope("abc")).unwrap();
    assert_eq!(resp.headers, vec![("location".to_string(), "/v1/things/abc".to_string())]);
}

#[test]
fn location_trims_every_trailing_slash() {
    assert_eq!(compose_location("/v1/x///", "9"), "/v1/x/9");
    assert_eq!(compose_location("", "9"), "/9");
}

#[test]
fn enrich_passes_success_and_typed_errors_through() {
    assert!(enrich_error(200, vec![]).is_none());
    assert!(enrich_error(404, vec![(Some("content-type".into()), b"application/json".to_vec())])
        .is_none());
}

#[test]
fn enrich_bare_401_403_and_others() {
    let (p, _) = enrich_error(401, vec![]).unwrap();
    assert_eq!(p.status, 401);
    assert_eq!(p.detail, "Authentication required");
    let (p, _) = enrich_error(403, vec![]).unwrap();
    assert_eq!(p.detail, "Insufficient permissions");
    let (p, _) = enrich_error(404, vec![]).unwrap();
    assert_eq!(p.status, 500);
    assert_eq!(p.detail, "Not Found");
    let (p, _) = enrich_error(599, vec![]).unwrap();
    assert_eq!(p.detail, "Unexpected error");
}

#[test]
fn enrich_keeps_custom_headers_only() {
    let headers = vec![
        (Some("x-custom".to_string()), b"value".to_vec()),
        (None, b"second".to_vec()),
        (Some("content-length".to_string()), b"0".to_vec()),
    ];
    let (_, carried) = enrich_error(401, headers).unwrap();
    assert_eq!(carried, vec![("x-custom".to_string(), b"value".to_vec())]);
}

#[test]
fn validation_rejection_lists_field_errors() {
    let failures = vec![
        FieldFailure { field: "name".into(), message: None, code: "required".into() },
        FieldFailure { field: "age".into(), message: Some("too young".into()), code: "range".into() },
    ];
    let e = validation_rejection(&failures);
    assert_eq!(e.0.status, 422);
    assert_eq!(e.0.detail, "request validation failed");
    assert_eq!(e.0.errors[0].field, "/name");
    assert_eq!(e.0.errors[0].message, "invalid value");
    assert_eq!(e.0.errors[0].rule.as_deref(), Some("required"));
    assert_eq!(e.0.errors[1].message, "too young");
    assert_eq!(json_rejection("bad json".into()).0.status, 400);
}
