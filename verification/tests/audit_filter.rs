use http::Method;
use socle::audit::{
    audit_capture, audit_event, audit_subject, duration_ms_between, queued_emit_outcome,
    org_path_string, AuditRequest, QueueSend,
};
use socle::org::{OrgId, OrganizationContext, Principal};
use socle::{AuditAnnotation, AuditFilter, AuditSinkError};

#[test]
fn default_includes_mutating_methods() {
    let f = AuditFilter::default();
    assert!(f.matches(Method::POST.as_str(), "/orders"));
    assert!(f.matches(Method::PUT.as_str(), "/orders/1"));
    assert!(f.matches(Method::PATCH.as_str(), "/orders/1"));
    assert!(f.matches(Method::DELETE.as_str(), "/orders/1"));
}

#[test]
fn default_excludes_get() {
    let f = AuditFilter::default();
    assert!(!f.matches(Method::GET.as_str(), "/orders"));
}

#[test]
fn default_excludes_healthz() {
    let f = AuditFilter::default();
    assert!(!f.matches(Method::POST.as_str(), "/healthz"));
    assert!(!f.matches(Method::POST.as_str(), "/readyz"));
    assert!(!f.matches(Method::POST.as_str(), "/livez"));
}

#[test]
fn default_excludes_status_suffix() {
    let f = AuditFilter::default();
    assert!(!f.matches(Method::POST.as_str(), "/orders/status"));
    assert!(!f.matches(Method::GET.as_str(), "/orders/status"));
}

#[test]
fn custom_include_path_overrides_method_check() {
    let f = AuditFilter::new().include_path("/admin/reload");
    assert!(f.matches(Method::GET.as_str(), "/admin/reload"));
}

#[test]
fn custom_exclude_path_prefix() {
    let f = AuditFilter::new().exclude_path_prefix("/internal");
    assert!(!f.matches(Method::POST.as_str(), "/internal/sync"));
}

#[test]
fn excluded_prefix_covers_only_whole_segments() {
    let f = AuditFilter::new();
    assert!(!f.matches("POST", "/healthz/deep"));
    assert!(f.matches("POST", "/healthzx"));
}

#[test]
fn include_method_audits_it_on_regular_paths() {
    let f = AuditFilter::new().include_method("GET");
    assert!(f.matches("GET", "/orders"));
    assert!(!f.matches("GET", "/healthz"));
    assert!(!f.matches("OPTIONS", "/orders"));
}

fn org(n: u128) -> OrgId {
    OrgId(n)
}

#[test]
fn capture_records_request_context() {
    let ctx = OrganizationContext::new(org(2), Principal::system("user-1"), 7)
        .with_org_path(vec![org(1), org(2)]);
    let req = AuditRequest {
        method: "POST".into(),
        path: "/orders/42".into(),
        matched_path: Some("/orders/{id}".into()),
        request_id: Some(b"req-1".to_vec()),
        traceparent: Some(vec![0xff]),
        org_context: Some(ctx),
    };
    let c = audit_capture(&AuditFilter::default(), req, 1_000).expect("audited");
    assert_eq!(c.method, "POST");
    assert_eq!(c.path_template, "/orders/{id}");
    assert_eq!(c.request_id.as_deref(), Some("req-1"));
    assert_eq!(c.traceparent, None);
    assert_eq!(c.principal_id.as_deref(), Some("user-1"));
    assert_eq!(
        c.org_path.as_deref(),
        Some("00000000-0000-0000-0000-000000000001/00000000-0000-0000-0000-000000000002")
    );
    assert_eq!(c.started_at_nanos, 1_000);
}

#[test]
fn capture_skips_unaudited_requests() {
    let req = AuditRequest {
        method: "GET".into(),
        path: "/orders".into(),
        matched_path: None,
        request_id: None,
        traceparent: None,
        org_context: None,
    };
    assert!(audit_capture(&AuditFilter::default(), req, 0).is_none());
}

#[test]
fn event_carries_status_duration_and_annotation() {
    let req = AuditRequest {
        method: "POST".into(),
        path: "/orders".into(),
        matched_path: None,
        request_id: None,
        traceparent: None,
        org_context: None,
    };
    let c = audit_capture(&AuditFilter::default(), req, 5_000_000).unwrap();
    assert_eq!(c.path_template, "/orders");
    let ann = AuditAnnotation::default().set_resource("order", "ord-1").set_action("create");
    let e = audit_event(c, 201, 17_999_999, Some(ann));
    assert_eq!(e.status, 201);
    assert_eq!(e.duration_ms, 12);
    assert_eq!(e.resource_type.as_deref(), Some("order"));
    assert_eq!(e.resource_id.as_deref(), Some("ord-1"));
    assert_eq!(e.action.as_deref(), Some("create"));
    assert!(e.changes.is_none());
    assert!(e.principal_id.is_none());
}

#[test]
fn duration_is_zero_when_clock_goes_back() {
    assert_eq!(duration_ms_between(10_000_000, 5), 0);
    assert_eq!(duration_ms_between(i64::MIN, i64::MAX), u64::MAX / 1_000_000);
}

#[test]
fn org_path_of_empty_path_is_empty() {
    assert_eq!(org_path_string(&vec![]), "");
}

#[test]
fn subject_names_service_and_resource() {
    assert_eq!(audit_subject("billing", &Some("invoice".into())), "audit.billing.invoice");
    assert_eq!(audit_subject("billing", &None), "audit.billing.unknown");
}

#[test]
fn queued_sink_drops_when_full_and_fails_when_closed() {
    let (r, dropped) = queued_emit_outcome(QueueSend::Sent);
    assert!(r.is_ok() && !dropped);
    let (r, dropped) = queued_emit_outcome(QueueSend::Full);
    assert!(r.is_ok() && dropped);
    let (r, dropped) = queued_emit_outcome(QueueSend::Closed);
    assert!(!dropped);
    assert_eq!(r.unwrap_err().0, "nats worker channel closed");
}

#[test]
fn sink_error_message() {
    assert_eq!(AuditSinkError("boom".into()).message(), "audit sink error: boom");
}
