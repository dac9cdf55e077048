use socle::org::{
    org_context_from_request, isolation_rejection, request_id_or, AncestryOrgPolicy, OrgContextSource,
    OrgId, OrgPolicy, OrganizationContext, Principal,
};

fn generate() -> OrgId {
    OrgId(uuid::Uuid::new_v4().as_u128())
}

fn ctx_with_path(org_id: OrgId, org_path: Vec<OrgId>) -> OrganizationContext {
    OrganizationContext::new(org_id, Principal::system("test"), uuid::Uuid::new_v4().as_u128())
        .with_org_path(org_path)
}

#[test]
fn ancestry_allows_self() {
    let org_id = generate();
    let ctx = ctx_with_path(org_id, vec![org_id]);
    assert!(AncestryOrgPolicy.allows(&ctx, &org_id).is_ok());
}

#[test]
fn ancestry_allows_descendant() {
    let root = generate();
    let caller_org = generate();
    let child_org = generate();
    let ctx = ctx_with_path(caller_org, vec![root, caller_org, child_org]);
    assert!(AncestryOrgPolicy.allows(&ctx, &child_org).is_ok());
}

#[test]
fn ancestry_rejects_sibling() {
    let root = generate();
    let caller_org = generate();
    let sibling_org = generate();
    let ctx = ctx_with_path(caller_org, vec![root, caller_org]);
    assert!(AncestryOrgPolicy.allows(&ctx, &sibling_org).is_err());
}

#[test]
fn ancestry_rejects_ancestor() {
    let root = generate();
    let parent = generate();
    let caller_org = generate();
    let ctx = ctx_with_path(caller_org, vec![root, parent, caller_org]);
    assert!(AncestryOrgPolicy.allows(&ctx, &parent).is_err());
    assert!(AncestryOrgPolicy.allows(&ctx, &root).is_err());
}

#[test]
fn ancestry_rejects_unrelated_org() {
    let caller_org = generate();
    let unrelated = generate();
    let ctx = ctx_with_path(caller_org, vec![caller_org]);
    assert!(AncestryOrgPolicy.allows(&ctx, &unrelated).is_err());
}

#[test]
fn check_target_returns_forbidden_with_detail() {
    let caller_org = generate();
    let other_org = generate();
    let ctx = ctx_with_path(caller_org, vec![caller_org]);
    let err = AncestryOrgPolicy.check_target(&ctx, &other_org).unwrap_err();
    assert_eq!(err.status_code(), 403);
    assert_eq!(err.detail, "cross-org access denied");
    assert!(err.request_id.is_some());
}

#[test]
fn check_target_ok_on_self() {
    let org_id = generate();
    let ctx = ctx_with_path(org_id, vec![org_id]);
    assert!(AncestryOrgPolicy.check_target(&ctx, &org_id).is_ok());
}

const ORG_A: &str = "11111111-1111-4111-8111-111111111111";
const ORG_B: &str = "22222222-2222-4222-8222-222222222222";

#[test]
fn context_from_claim_only() {
    let a = OrgId::parse(ORG_A).unwrap();
    let ctx = ctx_with_path(a, vec![a]);
    let (got, src) = org_context_from_request(Some(ctx), None, None, 1).unwrap();
    assert_eq!(got.org_id, a);
    assert_eq!(src, OrgContextSource::PrincipalClaim);
}

#[test]
fn context_from_header_only() {
    let a = OrgId::parse(ORG_A).unwrap();
    let (got, src) =
        org_context_from_request(None, Some(ORG_A.as_bytes().to_vec()), None, 9).unwrap();
    assert_eq!(got.org_id, a);
    assert_eq!(got.org_path, vec![a]);
    assert_eq!(got.principal.as_str(), "unauthenticated");
    assert_eq!(got.request_id, 9);
    assert_eq!(src, OrgContextSource::Header);
}

#[test]
fn conflicting_claim_and_header_is_403() {
    let a = OrgId::parse(ORG_A).unwrap();
    let ctx = ctx_with_path(a, vec![a]);
    let err = org_context_from_request(Some(ctx), Some(ORG_B.as_bytes().to_vec()), None, 1)
        .unwrap_err();
    assert_eq!(err.status, 403);
    assert_eq!(err.detail, "cross-tenant request rejected");
}

#[test]
fn missing_context_is_401() {
    let err = org_context_from_request(None, Some(b"not-a-uuid".to_vec()), None, 1).unwrap_err();
    assert_eq!(err.status, 401);
    assert_eq!(err.detail, "missing org context");
    assert!(isolation_rejection(true).is_none());
    assert_eq!(isolation_rejection(false).unwrap().status, 401);
}

#[test]
fn request_id_header_is_used_when_it_is_a_uuid() {
    let u = uuid::Uuid::parse_str(ORG_B).unwrap().as_u128();
    assert_eq!(request_id_or(Some(ORG_B.as_bytes().to_vec()), 5), u);
    assert_eq!(request_id_or(Some(b"abc".to_vec()), 5), 5);
    assert_eq!(request_id_or(None, 5), 5);
}

#[test]
fn context_from_headers_takes_the_org_path_header() {
    let a = OrgId::parse(ORG_A).unwrap();
    let b = OrgId::parse(ORG_B).unwrap();
    let path = format!("{ORG_B}, {ORG_A}");
    let (got, _) = org_context_from_request(
        None,
        Some(ORG_A.as_bytes().to_vec()),
        Some(path.into_bytes()),
        3,
    )
    .unwrap();
    assert_eq!(got.org_path, vec![b, a]);
    // An unparsable path falls back to the org alone.
    let (got, _) = org_context_from_request(
        None,
        Some(ORG_A.as_bytes().to_vec()),
        Some(b"nope".to_vec()),
        3,
    )
    .unwrap();
    assert_eq!(got.org_path, vec![a]);
}

#[test]
fn org_ids_render_hyphenated() {
    let a = OrgId::parse(ORG_A).unwrap();
    assert_eq!(a.to_text(), ORG_A);
    let b = OrgId::parse(ORG_B).unwrap();
    assert_eq!(
        socle::audit::org_path_string(&vec![b, a]),
        format!("{ORG_B}/{ORG_A}")
    );
}

#[test]
fn role_from_text_gives_the_text_back() {
    assert_eq!(socle::org::Role::from("admin").as_str(), "admin");
    assert_eq!(socle::org::Role::from("admin".to_string()).as_str(), "admin");
}
