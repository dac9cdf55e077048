//! OpenAPI documents: the health endpoints merged into a `utoipa`
//! document, and the bearer security scheme.

use vstd::prelude::*;
use crate::config::strings_view;
use crate::text::{concat2, str_eq};
use utoipa::openapi::path::{HttpMethod, PathItem};
use utoipa::openapi::security::{Http, HttpAuthScheme, SecurityScheme};

verus! {

#[verifier::external_type_specification]
#[verifier::external_body]
pub struct ExOpenApi(utoipa::openapi::OpenApi);

#[verifier::external_type_specification]
#[verifier::external_body]
pub struct ExOperation(utoipa::openapi::path::Operation);

/// The paths a document lists (the keys of `doc.paths.paths`).
pub uninterp spec fn openapi_paths(doc: utoipa::openapi::OpenApi) -> Set<Seq<char>>;

/// The names of a document's tags, in order (`doc.tags`, empty when unset).
pub uninterp spec fn openapi_tags(doc: utoipa::openapi::OpenApi) -> Seq<Seq<char>>;

/// The names of a document's security schemes.
pub uninterp spec fn openapi_security_schemes(doc: utoipa::openapi::OpenApi) -> Set<Seq<char>>;

/// What an operation holds, as far as this library reads it: its id, its
/// tags (empty when unset), its summary, its description, and its
/// responses by status code, each with its description (`None` for a
/// reference to a response defined elsewhere).
pub type OperationModel = (
    Option<Seq<char>>,
    Seq<Seq<char>>,
    Option<Seq<char>>,
    Option<Seq<char>>,
    Map<Seq<char>, Option<Seq<char>>>,
);

/// The GET operations of a document: for each path whose item has a GET
/// operation, what that operation holds.
pub uninterp spec fn openapi_get_operations(doc: utoipa::openapi::OpenApi) -> Map<
    Seq<char>,
    (
        Option<Seq<char>>,
        Seq<Seq<char>>,
        Option<Seq<char>>,
        Option<Seq<char>>,
        Map<Seq<char>, Option<Seq<char>>>,
    ),
>;

/// What an operation holds (its `operation_id`, `tags`, `summary`,
/// `description` and `responses` fields).
pub uninterp spec fn operation_model(op: utoipa::openapi::path::Operation) -> (
    Option<Seq<char>>,
    Seq<Seq<char>>,
    Option<Seq<char>>,
    Option<Seq<char>>,
    Map<Seq<char>, Option<Seq<char>>>,
);

/// The responses of an operation built from status codes and
/// descriptions: each code maps to its description, a later entry for the
/// same code replacing an earlier one.
pub open spec fn responses_map(rs: Seq<(String, String)>) -> Map<Seq<char>, Option<Seq<char>>>
    decreases rs.len(),
{
    if rs.len() == 0 {
        Map::empty()
    } else {
        responses_map(rs.drop_last()).insert(rs.last().0@, Some(rs.last().1@))
    }
}

/// What an operation built from a description holds.
pub open spec fn spec_model(op: OperationSpec) -> OperationModel {
    (
        Some(op.operation_id@),
        seq![op.tag@],
        Some(op.summary@),
        Some(op.description@),
        responses_map(op.responses@),
    )
}

/// What an operation is built from: id, tag, summary, description, and the
/// responses by status code and description.
#[derive(Debug, Clone)]
pub struct OperationSpec {
    /// The operation id.
    pub operation_id: String,
    /// Its tag.
    pub tag: String,
    /// One-line summary.
    pub summary: String,
    /// Longer description.
    pub description: String,
    /// Responses: status code and description.
    pub responses: Vec<(String, String)>,
}

/// The tag names of a document (`doc.tags`, as names).
#[verifier::external_body]
fn doc_tag_names(doc: &utoipa::openapi::OpenApi) -> (r: Vec<String>)
    ensures
        strings_view(r@) == openapi_tags(*doc),
{
    doc.tags.as_deref().unwrap_or(&[]).iter().map(|t| t.name.clone()).collect()
}

/// Append a tag (`utoipa::openapi::tag::Tag::new`, pushed onto `doc.tags`,
/// which is created when unset). The paths are untouched.
#[verifier::external_body]
fn doc_push_tag(doc: &mut utoipa::openapi::OpenApi, name: &str)
    ensures
        openapi_tags(*final(doc)) == openapi_tags(*old(doc)).push(name@),
        openapi_paths(*final(doc)) == openapi_paths(*old(doc)),
        openapi_get_operations(*final(doc)) == openapi_get_operations(*old(doc)),
        openapi_security_schemes(*final(doc)) == openapi_security_schemes(*old(doc)),
{
    doc.tags.get_or_insert_with(Vec::new).push(utoipa::openapi::tag::Tag::new(name));
}

/// Build an operation (`utoipa::openapi::path::OperationBuilder`: the
/// given id, one tag, summary and description, and for each response
/// `OperationBuilder::response`, which inserts an inline response with the
/// given description into the responses map under its code). It holds
/// exactly that.
#[verifier::external_body]
fn build_operation(op: &OperationSpec) -> (r: utoipa::openapi::path::Operation)
    ensures
        operation_model(r) == spec_model(*op),
{
    let mut b = utoipa::openapi::path::OperationBuilder::new().operation_id(
        Some(op.operation_id.clone()),
    ).tag(op.tag.clone()).summary(Some(op.summary.clone())).description(
        Some(op.description.clone()),
    );
    for (code, desc) in op.responses.iter() {
        b = b.response(
            code.clone(),
            utoipa::openapi::response::ResponseBuilder::new().description(desc.clone()).build(),
        );
    }
    b.build()
}

/// Add a GET operation at a path (`doc.paths.paths.entry(path)`: merged
/// into the existing path item with `PathItem::merge_operations`, which
/// keeps a GET operation already there, else inserted as
/// `PathItem::new(HttpMethod::Get, ..)`). The path is listed afterwards and
/// has a GET operation: the one it had, else `op`; no other path changes.
/// Tags and security schemes are untouched.
#[verifier::external_body]
fn doc_merge_get(doc: &mut utoipa::openapi::OpenApi, path: &str, op: utoipa::openapi::path::Operation)
    ensures
        openapi_paths(*final(doc)) == openapi_paths(*old(doc)).insert(path@),
        openapi_get_operations(*final(doc)) == (if openapi_get_operations(*old(doc)).dom().contains(
            path@,
        ) {
            openapi_get_operations(*old(doc))
        } else {
            openapi_get_operations(*old(doc)).insert(path@, operation_model(op))
        }),
        openapi_tags(*final(doc)) == openapi_tags(*old(doc)),
        openapi_security_schemes(*final(doc)) == openapi_security_schemes(*old(doc)),
{
    doc.paths.paths.entry(path.to_string()).and_modify(
        |item| item.merge_operations(PathItem::new(HttpMethod::Get, op.clone())),
    ).or_insert_with(|| PathItem::new(HttpMethod::Get, op));
}

/// Register the `BearerAuth` HTTP bearer security scheme
/// (`Components::add_security_scheme`, components created when unset).
/// Paths and tags are untouched.
#[verifier::external_body]
fn doc_add_bearer_scheme(doc: &mut utoipa::openapi::OpenApi)
    ensures
        openapi_security_schemes(*final(doc)) == openapi_security_schemes(*old(doc)).insert(
            "BearerAuth"@,
        ),
        openapi_paths(*final(doc)) == openapi_paths(*old(doc)),
        openapi_tags(*final(doc)) == openapi_tags(*old(doc)),
        openapi_get_operations(*final(doc)) == openapi_get_operations(*old(doc)),
{
    doc.components.get_or_insert_with(Default::default).add_security_scheme(
        "BearerAuth",
        SecurityScheme::Http(Http::new(HttpAuthScheme::Bearer)),
    );
}

/// What the liveness operation holds.
pub open spec fn liveness_model() -> OperationModel {
    (
        Some("liveness"@),
        seq!["health"@],
        Some("Liveness probe"@),
        Some("Returns `200 OK` when the process is alive. Always succeeds as long as the server is running."@),
        Map::empty().insert("200"@, Some("Service is alive"@)),
    )
}

/// What the readiness operation holds.
pub open spec fn readiness_model() -> OperationModel {
    (
        Some("readiness"@),
        seq!["health"@],
        Some("Readiness probe"@),
        Some("Returns `200 OK` when all registered readiness checks pass, `503 Service Unavailable` when any check fails."@),
        Map::empty().insert("200"@, Some("Service is ready"@)).insert(
            "503"@,
            Some("Service is not ready — one or more checks failed"@),
        ),
    )
}

/// The liveness operation.
pub fn liveness_operation() -> (r: OperationSpec)
    ensures
        spec_model(r) == liveness_model(),
        r.operation_id@ == "liveness"@,
        r.tag@ == "health"@,
        r.summary@ == "Liveness probe"@,
        r.responses@.len() == 1,
        r.responses@[0].0@ == "200"@,
        r.responses@[0].1@ == "Service is alive"@,
{
    let r = OperationSpec {
        operation_id: String::from_str("liveness"),
        tag: String::from_str("health"),
        summary: String::from_str("Liveness probe"),
        description: String::from_str(
            "Returns `200 OK` when the process is alive. Always succeeds as long as the server is running.",
        ),
        responses: vec![(String::from_str("200"), String::from_str("Service is alive"))],
    };
    proof {
        let rs = r.responses@;
        assert(rs.len() == 1);
        assert(responses_map(rs.drop_last()) == Map::<Seq<char>, Option<Seq<char>>>::empty());
        assert(rs.last() == rs[0]);
        assert(rs[0].0@ == "200"@ && rs[0].1@ == "Service is alive"@);
        assert(spec_model(r).4 =~= liveness_model().4);
    }
    r
}

/// The readiness operation.
pub fn readiness_operation() -> (r: OperationSpec)
    ensures
        spec_model(r) == readiness_model(),
        r.operation_id@ == "readiness"@,
        r.tag@ == "health"@,
        r.summary@ == "Readiness probe"@,
        r.responses@.len() == 2,
        r.responses@[0].0@ == "200"@,
        r.responses@[0].1@ == "Service is ready"@,
        r.responses@[1].0@ == "503"@,
        r.responses@[1].1@ == "Service is not ready — one or more checks failed"@,
{
    let r = OperationSpec {
        operation_id: String::from_str("readiness"),
        tag: String::from_str("health"),
        summary: String::from_str("Readiness probe"),
        description: String::from_str(
            "Returns `200 OK` when all registered readiness checks pass, `503 Service Unavailable` when any check fails.",
        ),
        responses: vec![
            (String::from_str("200"), String::from_str("Service is ready")),
            (
                String::from_str("503"),
                String::from_str("Service is not ready — one or more checks failed"),
            ),
        ],
    };
    proof {
        let rs = r.responses@;
        assert(rs.len() == 2);
        let r1 = rs.drop_last();
        assert(r1.len() == 1 && r1[0] == rs[0] && r1.last() == rs[0]);
        assert(responses_map(r1.drop_last()) == Map::<Seq<char>, Option<Seq<char>>>::empty());
        assert(responses_map(r1) == Map::<Seq<char>, Option<Seq<char>>>::empty().insert(
            "200"@,
            Some("Service is ready"@),
        ));
        assert(rs.last() == rs[1]);
        assert(spec_model(r).4 =~= readiness_model().4);
    }
    r
}

/// Whether a list of names holds the given one.
pub open spec fn names_contain(names: Seq<Seq<char>>, x: Seq<char>) -> bool {
    exists|i: int| 0 <= i < names.len() && #[trigger] names[i] == x
}

/// Whether some string of the list equals `x`.
fn contains_name(names: &Vec<String>, x: &str) -> (r: bool)
    ensures
        r == names_contain(strings_view(names@), x@),
{
    let ghost v = strings_view(names@);
    let mut i: usize = 0;
    while i < names.len()
        invariant
            i <= names@.len(),
            v == strings_view(names@),
            forall|j: int| 0 <= j < i ==> v[j] != x@,
        decreases names@.len() - i,
    {
        if str_eq(names[i].as_str(), x) {
            proof {
                assert(v[i as int] == x@);
            }
            return true;
        }
        i = i + 1;
    }
    false
}

/// The GET operations once an operation is merged at a path: a GET
/// operation already there is kept.
pub open spec fn with_get(
    ops: Map<Seq<char>, OperationModel>,
    path: Seq<char>,
    op: OperationModel,
) -> Map<Seq<char>, OperationModel> {
    if ops.dom().contains(path) {
        ops
    } else {
        ops.insert(path, op)
    }
}

/// Merge the health endpoints into a document: GET operations at
/// `{health_path}/live` (the liveness operation) and `{health_path}/ready`
/// (the readiness operation), each kept as it was where the path already had
/// a GET operation, and a `health` tag when the document has none.
pub fn merge_health_paths(doc: &mut utoipa::openapi::OpenApi, health_path: &str)
    ensures
        openapi_get_operations(*final(doc)) == with_get(
            with_get(openapi_get_operations(*old(doc)), health_path@ + "/live"@, liveness_model()),
            health_path@ + "/ready"@,
            readiness_model(),
        ),
        openapi_paths(*final(doc)) == openapi_paths(*old(doc)).insert(health_path@ + "/live"@).insert(
            health_path@ + "/ready"@,
        ),
        openapi_tags(*final(doc)) == (if names_contain(openapi_tags(*old(doc)), "health"@) {
            openapi_tags(*old(doc))
        } else {
            openapi_tags(*old(doc)).push("health"@)
        }),
        openapi_security_schemes(*final(doc)) == openapi_security_schemes(*old(doc)),
{
    let live = build_operation(&liveness_operation());
    let ready = build_operation(&readiness_operation());
    let live_path = concat2(health_path, "/live");
    let ready_path = concat2(health_path, "/ready");
    doc_merge_get(doc, live_path.as_str(), live);
    doc_merge_get(doc, ready_path.as_str(), ready);
    proof {
        reveal_strlit("/live");
        reveal_strlit("/ready");
        assert((health_path@ + "/live"@).len() != (health_path@ + "/ready"@).len());
    }
    let names = doc_tag_names(doc);
    if !contains_name(&names, "health") {
        doc_push_tag(doc, "health");
    }
}

/// Merging the health endpoints twice is the same as merging them once:
/// the paths are a set, a GET operation already at a path is kept, and the
/// `health` tag is added only when missing.
pub proof fn lemma_merge_health_paths_idempotent(
    paths: Set<Seq<char>>,
    tags: Seq<Seq<char>>,
    ops: Map<Seq<char>, OperationModel>,
    health_path: Seq<char>,
)
    ensures
        ({
            let p1 = paths.insert(health_path + "/live"@).insert(health_path + "/ready"@);
            let t1 = if names_contain(tags, "health"@) {
                tags
            } else {
                tags.push("health"@)
            };
            let p2 = p1.insert(health_path + "/live"@).insert(health_path + "/ready"@);
            let t2 = if names_contain(t1, "health"@) {
                t1
            } else {
                t1.push("health"@)
            };
            let o1 = with_get(
                with_get(ops, health_path + "/live"@, liveness_model()),
                health_path + "/ready"@,
                readiness_model(),
            );
            let o2 = with_get(
                with_get(o1, health_path + "/live"@, liveness_model()),
                health_path + "/ready"@,
                readiness_model(),
            );
            p2 == p1 && t2 == t1 && names_contain(t1, "health"@) && o2 == o1
        }),
{
    let live = health_path + "/live"@;
    let ready = health_path + "/ready"@;
    let o1 = with_get(with_get(ops, live, liveness_model()), ready, readiness_model());
    assert(o1.dom().contains(live));
    assert(o1.dom().contains(ready));
    let p1 = paths.insert(health_path + "/live"@).insert(health_path + "/ready"@);
    let p2 = p1.insert(health_path + "/live"@).insert(health_path + "/ready"@);
    assert(p2 =~= p1);
    if !names_contain(tags, "health"@) {
        let t1 = tags.push("health"@);
        assert(t1[tags.len() as int] == "health"@);
    }
}

/// Register the `BearerAuth` HTTP bearer security scheme on a document.
pub fn add_bearer_auth(doc: &mut utoipa::openapi::OpenApi)
    ensures
        openapi_security_schemes(*final(doc)) == openapi_security_schemes(*old(doc)).insert(
            "BearerAuth"@,
        ),
        openapi_paths(*final(doc)) == openapi_paths(*old(doc)),
        openapi_tags(*final(doc)) == openapi_tags(*old(doc)),
        openapi_get_operations(*final(doc)) == openapi_get_operations(*old(doc)),
{
    doc_add_bearer_scheme(doc);
}

} // verus!
