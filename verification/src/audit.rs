//! Audit capture: which requests are audited, what is recorded of them, and
//! the events handed to the pluggable sinks.
//!
//! The tower layer itself (request extensions, the annotation slot shared
//! with handlers, spawning the sink call) lives with the HTTP plumbing; this
//! module holds its decisions: the filter, the capture of request context
//! before the handler runs, and the event built once the response is known.

use vstd::prelude::*;
use crate::config::strings_view;
use crate::org::{header_value_text, uuid_text, visible_ascii, OrgId, OrganizationContext};
use crate::text::{chars_of, concat2, ends_with, opt_bytes, opt_text, push_char, starts_with, str_eq};

verus! {

// ── Filter ───────────────────────────────────────────────────────────────────

/// The abstract content of an [`AuditFilter`].
pub struct AuditFilterModel {
    /// Methods audited by default (exact names).
    pub methods: Seq<Seq<char>>,
    /// Path prefixes that are never audited (the path itself or below it).
    pub excluded_prefixes: Seq<Seq<char>>,
    /// Path suffixes that are never audited.
    pub excluded_suffixes: Seq<Seq<char>>,
    /// Path prefixes that are always audited, whatever the method.
    pub included_paths: Seq<Seq<char>>,
}

/// Controls which requests are audited.
///
/// By default the mutating methods (`POST`, `PUT`, `PATCH`, `DELETE`) are
/// audited, and the infrastructure probes (`/healthz`, `/readyz`, `/livez`
/// and any path ending in `/status`) are not.
#[derive(Debug, Clone)]
pub struct AuditFilter {
    included_methods: Vec<String>,
    excluded_path_prefixes: Vec<String>,
    excluded_path_suffixes: Vec<String>,
    additional_included_paths: Vec<String>,
}

impl View for AuditFilter {
    type V = AuditFilterModel;

    closed spec fn view(&self) -> AuditFilterModel {
        AuditFilterModel {
            methods: strings_view(self.included_methods@),
            excluded_prefixes: strings_view(self.excluded_path_prefixes@),
            excluded_suffixes: strings_view(self.excluded_path_suffixes@),
            included_paths: strings_view(self.additional_included_paths@),
        }
    }
}

/// Whether a list of texts contains the given one.
pub open spec fn lists(list: Seq<Seq<char>>, x: Seq<char>) -> bool {
    exists|i: int| 0 <= i < list.len() && #[trigger] list[i] == x
}

/// Whether some text of the list is a prefix of the path.
pub open spec fn some_prefix_of(list: Seq<Seq<char>>, path: Seq<char>) -> bool {
    exists|i: int| 0 <= i < list.len() && crate::text::has_prefix(path, #[trigger] list[i])
}

/// Whether the path is one of the listed prefixes or lies below one of them
/// (the prefix followed by `/`).
pub open spec fn under_some_prefix(list: Seq<Seq<char>>, path: Seq<char>) -> bool {
    exists|i: int|
        0 <= i < list.len() && (path == #[trigger] list[i] || crate::text::has_prefix(
            path,
            list[i].push('/'),
        ))
}

/// Whether some text of the list is a suffix of the path.
pub open spec fn some_suffix_of(list: Seq<Seq<char>>, path: Seq<char>) -> bool {
    exists|i: int| 0 <= i < list.len() && crate::text::has_suffix(path, #[trigger] list[i])
}

/// Whether a filter audits a request with the given method and path: an
/// explicitly included path always is; otherwise the method must be listed
/// and the path neither under an excluded prefix nor ending in an excluded
/// suffix.
pub open spec fn audit_matches(f: AuditFilterModel, method: Seq<char>, path: Seq<char>) -> bool {
    ||| some_prefix_of(f.included_paths, path)
    ||| {
        &&& lists(f.methods, method)
        &&& !under_some_prefix(f.excluded_prefixes, path)
        &&& !some_suffix_of(f.excluded_suffixes, path)
    }
}

/// The model of the default filter.
pub open spec fn default_filter_model() -> AuditFilterModel {
    AuditFilterModel {
        methods: seq!["POST"@, "PUT"@, "PATCH"@, "DELETE"@],
        excluded_prefixes: seq!["/healthz"@, "/readyz"@, "/livez"@],
        excluded_suffixes: seq!["/status"@],
        included_paths: Seq::empty(),
    }
}

/// Whether some string of the list equals `x`.
fn list_contains(list: &Vec<String>, x: &str) -> (r: bool)
    ensures
        r == lists(strings_view(list@), x@),
{
    let ghost v = strings_view(list@);
    let mut i: usize = 0;
    while i < list.len()
        invariant
            i <= list@.len(),
            v == strings_view(list@),
            forall|j: int| 0 <= j < i ==> v[j] != x@,
        decreases list@.len() - i,
    {
        if str_eq(list[i].as_str(), x) {
            proof {
                assert(v[i as int] == x@);
            }
            return true;
        }
        i = i + 1;
    }
    false
}

/// Whether some string of the list is a prefix of the path.
fn list_has_prefix_of(list: &Vec<String>, path: &[char]) -> (r: bool)
    ensures
        r == some_prefix_of(strings_view(list@), path@),
{
    let ghost v = strings_view(list@);
    let mut i: usize = 0;
    while i < list.len()
        invariant
            i <= list@.len(),
            v == strings_view(list@),
            forall|j: int| 0 <= j < i ==> !crate::text::has_prefix(path@, #[trigger] v[j]),
        decreases list@.len() - i,
    {
        let p = chars_of(list[i].as_str());
        if starts_with(path, p.as_slice()) {
            proof {
                assert(crate::text::has_prefix(path@, v[i as int]));
            }
            return true;
        }
        i = i + 1;
    }
    false
}

/// Whether the path is one of the listed prefixes or lies below one.
fn list_has_parent_of(list: &Vec<String>, path: &[char]) -> (r: bool)
    ensures
        r == under_some_prefix(strings_view(list@), path@),
{
    let ghost v = strings_view(list@);
    let mut i: usize = 0;
    while i < list.len()
        invariant
            i <= list@.len(),
            v == strings_view(list@),
            forall|j: int|
                0 <= j < i ==> !(path@ == #[trigger] v[j] || crate::text::has_prefix(
                    path@,
                    v[j].push('/'),
                )),
        decreases list@.len() - i,
    {
        let mut p = chars_of(list[i].as_str());
        let same = crate::text::chars_eq(path, p.as_slice());
        p.push('/');
        let below = starts_with(path, p.as_slice());
        if same || below {
            proof {
                assert(path@ == v[i as int] || crate::text::has_prefix(path@, v[i as int].push('/')));
            }
            return true;
        }
        i = i + 1;
    }
    false
}

/// Whether some string of the list is a suffix of the path.
fn list_has_suffix_of(list: &Vec<String>, path: &[char]) -> (r: bool)
    ensures
        r == some_suffix_of(strings_view(list@), path@),
{
    let ghost v = strings_view(list@);
    let mut i: usize = 0;
    while i < list.len()
        invariant
            i <= list@.len(),
            v == strings_view(list@),
            forall|j: int| 0 <= j < i ==> !crate::text::has_suffix(path@, #[trigger] v[j]),
        decreases list@.len() - i,
    {
        let s = chars_of(list[i].as_str());
        if ends_with(path, s.as_slice()) {
            proof {
                assert(crate::text::has_suffix(path@, v[i as int]));
            }
            return true;
        }
        i = i + 1;
    }
    false
}

impl AuditFilter {
    /// The default filter: the four mutating methods, with the probe paths
    /// excluded.
    pub fn new() -> (r: Self)
        ensures
            r@ == default_filter_model(),
    {
        let f = AuditFilter {
            included_methods: vec![
                String::from_str("POST"),
                String::from_str("PUT"),
                String::from_str("PATCH"),
                String::from_str("DELETE"),
            ],
            excluded_path_prefixes: vec![
                String::from_str("/healthz"),
                String::from_str("/readyz"),
                String::from_str("/livez"),
            ],
            excluded_path_suffixes: vec![String::from_str("/status")],
            additional_included_paths: Vec::new(),
        };
        proof {
            assert(strings_view(f.included_methods@) =~= seq!["POST"@, "PUT"@, "PATCH"@, "DELETE"@]);
            assert(strings_view(f.excluded_path_prefixes@) =~= seq![
                "/healthz"@,
                "/readyz"@,
                "/livez"@,
            ]);
            assert(strings_view(f.excluded_path_suffixes@) =~= seq!["/status"@]);
            assert(strings_view(f.additional_included_paths@) =~= Seq::<Seq<char>>::empty());
        }
        f
    }

    /// Also audit requests with the given method.
    pub fn include_method(self, method: &str) -> (r: Self)
        ensures
            r@ == (AuditFilterModel { methods: self@.methods.push(method@), ..self@ }),
    {
        let mut f = self;
        f.included_methods.push(String::from_str(method));
        proof {
            assert(strings_view(f.included_methods@) =~= self@.methods.push(method@));
        }
        f
    }

    /// Never audit the given path or anything below it.
    pub fn exclude_path_prefix(self, prefix: &str) -> (r: Self)
        ensures
            r@ == (AuditFilterModel {
                excluded_prefixes: self@.excluded_prefixes.push(prefix@),
                ..self@
            }),
    {
        let mut f = self;
        f.excluded_path_prefixes.push(String::from_str(prefix));
        proof {
            assert(strings_view(f.excluded_path_prefixes@) =~= self@.excluded_prefixes.push(prefix@));
        }
        f
    }

    /// Always audit paths that start with the given text, whatever the
    /// method.
    pub fn include_path(self, path: &str) -> (r: Self)
        ensures
            r@ == (AuditFilterModel { included_paths: self@.included_paths.push(path@), ..self@ }),
    {
        let mut f = self;
        f.additional_included_paths.push(String::from_str(path));
        proof {
            assert(strings_view(f.additional_included_paths@) =~= self@.included_paths.push(path@));
        }
        f
    }

    /// Whether a request with this method and path is audited.
    pub fn matches(&self, method: &str, path: &str) -> (r: bool)
        ensures
            r == audit_matches(self@, method@, path@),
    {
        let p = chars_of(path);
        if list_has_prefix_of(&self.additional_included_paths, p.as_slice()) {
            return true;
        }
        if !list_contains(&self.included_methods, method) {
            return false;
        }
        let excluded = list_has_parent_of(&self.excluded_path_prefixes, p.as_slice())
            || list_has_suffix_of(&self.excluded_path_suffixes, p.as_slice());
        !excluded
    }
}

// ── Filter laws ──────────────────────────────────────────────────────────────

/// A path added with `include_path` is audited under every method, whatever
/// else the filter excludes.
pub proof fn lemma_included_path_always_audited(
    f: AuditFilterModel,
    p: Seq<char>,
    method: Seq<char>,
    path: Seq<char>,
)
    requires
        crate::text::has_prefix(path, p),
    ensures
        audit_matches(AuditFilterModel { included_paths: f.included_paths.push(p), ..f }, method, path),
{
    let g = f.included_paths.push(p);
    assert(crate::text::has_prefix(path, g[f.included_paths.len() as int]));
}

/// Excluding a prefix only narrows the filter: no request becomes audited,
/// and the excluded path itself stops being audited unless a path that was
/// explicitly included covers it.
pub proof fn lemma_exclude_prefix_narrows(
    f: AuditFilterModel,
    prefix: Seq<char>,
    method: Seq<char>,
    path: Seq<char>,
)
    ensures
        audit_matches(
            AuditFilterModel { excluded_prefixes: f.excluded_prefixes.push(prefix), ..f },
            method,
            path,
        ) ==> audit_matches(f, method, path),
        (path == prefix || crate::text::has_prefix(path, prefix.push('/'))) && !some_prefix_of(
            f.included_paths,
            path,
        ) ==> !audit_matches(
            AuditFilterModel { excluded_prefixes: f.excluded_prefixes.push(prefix), ..f },
            method,
            path,
        ),
{
    let g = f.excluded_prefixes.push(prefix);
    if under_some_prefix(f.excluded_prefixes, path) {
        let i = choose|i: int|
            0 <= i < f.excluded_prefixes.len() && (path == #[trigger] f.excluded_prefixes[i]
                || crate::text::has_prefix(path, f.excluded_prefixes[i].push('/')));
        assert(g[i] == f.excluded_prefixes[i]);
    }
    if path == prefix || crate::text::has_prefix(path, prefix.push('/')) {
        assert(g[f.excluded_prefixes.len() as int] == prefix);
    }
}

/// Adding a method only widens the filter: every audited request stays
/// audited, and the new method is audited on every path that is not
/// excluded.
pub proof fn lemma_include_method_widens(
    f: AuditFilterModel,
    m: Seq<char>,
    method: Seq<char>,
    path: Seq<char>,
)
    ensures
        audit_matches(f, method, path) ==> audit_matches(
            AuditFilterModel { methods: f.methods.push(m), ..f },
            method,
            path,
        ),
        !under_some_prefix(f.excluded_prefixes, path) && !some_suffix_of(f.excluded_suffixes, path)
            ==> audit_matches(AuditFilterModel { methods: f.methods.push(m), ..f }, m, path),
{
    let g = f.methods.push(m);
    if lists(f.methods, method) {
        let i = choose|i: int| 0 <= i < f.methods.len() && #[trigger] f.methods[i] == method;
        assert(g[i] == f.methods[i]);
    }
    assert(g[f.methods.len() as int] == m);
}

/// The default filter audits only the four mutating methods, and never a
/// probe path: `/healthz`, `/readyz`, `/livez`, anything below them, or a
/// path ending in `/status`.
pub proof fn lemma_default_filter_audits_mutations_only(method: Seq<char>, path: Seq<char>)
    ensures
        audit_matches(default_filter_model(), method, path) ==> (method == "POST"@ || method
            == "PUT"@ || method == "PATCH"@ || method == "DELETE"@),
        audit_matches(default_filter_model(), method, path) ==> (path != "/healthz"@ && path
            != "/readyz"@ && path != "/livez"@ && !crate::text::has_suffix(path, "/status"@)),
{
    let d = default_filter_model();
    assert(!some_prefix_of(d.included_paths, path));
    if lists(d.methods, method) {
        let i = choose|i: int| 0 <= i < d.methods.len() && #[trigger] d.methods[i] == method;
        assert(i == 0 || i == 1 || i == 2 || i == 3);
    }
    if path == "/healthz"@ {
        assert(d.excluded_prefixes[0] == path);
    }
    if path == "/readyz"@ {
        assert(d.excluded_prefixes[1] == path);
    }
    if path == "/livez"@ {
        assert(d.excluded_prefixes[2] == path);
    }
    if crate::text::has_suffix(path, "/status"@) {
        assert(crate::text::has_suffix(path, d.excluded_suffixes[0]));
    }
}

impl Default for AuditFilter {
    fn default() -> (r: Self)
        ensures
            r@ == default_filter_model(),
    {
        AuditFilter::new()
    }
}

// ── Annotations, events and sinks ───────────────────────────────────────────

#[verifier::external_type_specification]
#[verifier::external_body]
pub struct ExJsonValue(serde_json::Value);

/// Domain-level enrichment attached by a handler to the audit event of its
/// request.
#[derive(Debug, Clone)]
pub struct AuditAnnotation {
    /// Kind of the resource acted on.
    pub resource_type: Option<String>,
    /// Identifier of the resource acted on.
    pub resource_id: Option<String>,
    /// Domain action name.
    pub action: Option<String>,
    /// Free-form description of the change.
    pub changes: Option<serde_json::Value>,
}

impl AuditAnnotation {
    /// An empty annotation.
    pub fn new() -> (r: Self)
        ensures
            r.resource_type is None,
            r.resource_id is None,
            r.action is None,
            r.changes is None,
    {
        AuditAnnotation { resource_type: None, resource_id: None, action: None, changes: None }
    }

    /// Record the resource kind and id.
    pub fn set_resource(self, r_type: &str, r_id: &str) -> (r: Self)
        ensures
            opt_text(r.resource_type) == Some(r_type@),
            opt_text(r.resource_id) == Some(r_id@),
            r.action == self.action,
            r.changes == self.changes,
    {
        AuditAnnotation {
            resource_type: Some(String::from_str(r_type)),
            resource_id: Some(String::from_str(r_id)),
            ..self
        }
    }

    /// Record the domain action.
    pub fn set_action(self, action: &str) -> (r: Self)
        ensures
            opt_text(r.action) == Some(action@),
            r.resource_type == self.resource_type,
            r.resource_id == self.resource_id,
            r.changes == self.changes,
    {
        AuditAnnotation { action: Some(String::from_str(action)), ..self }
    }

    /// Record the change description.
    pub fn set_changes(self, value: serde_json::Value) -> (r: Self)
        ensures
            r.changes == Some(value),
            r.resource_type == self.resource_type,
            r.resource_id == self.resource_id,
            r.action == self.action,
    {
        AuditAnnotation { changes: Some(value), ..self }
    }
}

impl Default for AuditAnnotation {
    fn default() -> (r: Self)
        ensures
            r.resource_type is None,
            r.resource_id is None,
            r.action is None,
            r.changes is None,
    {
        AuditAnnotation::new()
    }
}

/// What the audit layer reads from a request before the handler runs.
#[derive(Debug, Clone)]
pub struct AuditRequest {
    /// The request method name.
    pub method: String,
    /// The request path.
    pub path: String,
    /// The route template the router matched, if any.
    pub matched_path: Option<String>,
    /// The raw value of the request id set by the request-id layer.
    pub request_id: Option<Vec<u8>>,
    /// The raw `traceparent` header value.
    pub traceparent: Option<Vec<u8>>,
    /// The organization context, when one was resolved.
    pub org_context: Option<OrganizationContext>,
}

/// What is kept of an audited request until its response is known.
#[derive(Debug, Clone)]
pub struct AuditCapture {
    /// The request id, when present and visible ASCII.
    pub request_id: Option<String>,
    /// The `traceparent` header, when present and visible ASCII.
    pub traceparent: Option<String>,
    /// The principal identifier of the organization context.
    pub principal_id: Option<String>,
    /// The org path of the organization context, ids joined by `/`.
    pub org_path: Option<String>,
    /// The request method name.
    pub method: String,
    /// The matched route template, or the raw path when none matched.
    pub path_template: String,
    /// When the request was seen, in nanoseconds since the Unix epoch.
    pub started_at_nanos: i64,
}

/// The audit record emitted once per audited request.
#[derive(Debug, Clone)]
pub struct AuditEvent {
    /// The request id.
    pub request_id: Option<String>,
    /// The W3C `traceparent`.
    pub traceparent: Option<String>,
    /// The acting principal.
    pub principal_id: Option<String>,
    /// The org path of the acting organization.
    pub org_path: Option<String>,
    /// The request method name.
    pub method: String,
    /// The matched route template (or raw path).
    pub path_template: String,
    /// The response status code.
    pub status: u16,
    /// When the request was seen, in nanoseconds since the Unix epoch.
    pub started_at_nanos: i64,
    /// Whole milliseconds between the request and its response (zero when
    /// the clock went backwards).
    pub duration_ms: u64,
    /// Resource kind from the handler's annotation.
    pub resource_type: Option<String>,
    /// Resource id from the handler's annotation.
    pub resource_id: Option<String>,
    /// Action from the handler's annotation.
    pub action: Option<String>,
    /// Change description from the handler's annotation.
    pub changes: Option<serde_json::Value>,
}

/// Text of an optional raw header value: present when the value is there
/// and every byte is visible ASCII.
pub open spec fn header_text(raw: Option<Seq<u8>>) -> Option<Seq<char>> {
    match raw {
        Some(b) => if forall|i: int| 0 <= i < b.len() ==> visible_ascii(#[trigger] b[i]) {
            Some(b.map_values(|x: u8| x as char))
        } else {
            None
        },
        None => None,
    }
}

/// The organization ids of a path, in their hyphenated form, joined by `/`.
pub open spec fn org_path_text(p: Seq<OrgId>) -> Seq<char>
    decreases p.len(),
{
    if p.len() == 0 {
        Seq::empty()
    } else if p.len() == 1 {
        uuid_text(p[0].0)
    } else {
        org_path_text(p.drop_last()) + "/"@ + uuid_text(p.last().0)
    }
}

/// Whole milliseconds from `started` to `finished` (nanosecond instants),
/// or zero when `finished` is not later.
pub open spec fn audit_duration_ms(started: i64, finished: i64) -> int {
    if finished > started {
        (finished - started) / 1_000_000
    } else {
        0
    }
}

/// The capture of an audited request.
pub open spec fn captured(c: AuditCapture, req: AuditRequest, started_at_nanos: i64) -> bool {
    &&& opt_text(c.request_id) == header_text(opt_bytes(req.request_id))
    &&& opt_text(c.traceparent) == header_text(opt_bytes(req.traceparent))
    &&& opt_text(c.principal_id) == (match req.org_context {
        Some(ctx) => Some(ctx.principal.id@),
        None => None,
    })
    &&& opt_text(c.org_path) == (match req.org_context {
        Some(ctx) => Some(org_path_text(ctx.org_path@)),
        None => None,
    })
    &&& c.method@ == req.method@
    &&& c.path_template@ == (match req.matched_path {
        Some(m) => m@,
        None => req.path@,
    })
    &&& c.started_at_nanos == started_at_nanos
}

/// The event of a captured request once its response is known.
pub open spec fn event_of(
    e: AuditEvent,
    c: AuditCapture,
    status: u16,
    finished_at_nanos: i64,
    annotation: Option<AuditAnnotation>,
) -> bool {
    &&& e.request_id == c.request_id
    &&& e.traceparent == c.traceparent
    &&& e.principal_id == c.principal_id
    &&& e.org_path == c.org_path
    &&& e.method == c.method
    &&& e.path_template == c.path_template
    &&& e.status == status
    &&& e.started_at_nanos == c.started_at_nanos
    &&& e.duration_ms == audit_duration_ms(c.started_at_nanos, finished_at_nanos)
    &&& e.resource_type == (match annotation {
        Some(a) => a.resource_type,
        None => None,
    })
    &&& e.resource_id == (match annotation {
        Some(a) => a.resource_id,
        None => None,
    })
    &&& e.action == (match annotation {
        Some(a) => a.action,
        None => None,
    })
    &&& e.changes == (match annotation {
        Some(a) => a.changes,
        None => None,
    })
}

/// The text of an optional raw header value.
fn optional_header_text(raw: Option<Vec<u8>>) -> (r: Option<String>)
    ensures
        opt_text(r) == header_text(opt_bytes(raw)),
{
    match raw {
        None => None,
        Some(b) => {
            let t = header_value_text(b.as_slice());
            proof {
                if t is Some {
                    assert(t->Some_0@ =~= b@.map_values(|x: u8| x as char));
                }
            }
            t
        },
    }
}

/// The org path as text: hyphenated ids joined by `/`.
pub fn org_path_string(path: &Vec<OrgId>) -> (r: String)
    ensures
        r@ == org_path_text(path@),
{
    let mut out = String::new();
    let mut i: usize = 0;
    proof {
        assert(path@.subrange(0, 0) =~= Seq::<OrgId>::empty());
    }
    while i < path.len()
        invariant
            i <= path@.len(),
            out@ == org_path_text(path@.subrange(0, i as int)),
        decreases path@.len() - i,
    {
        let ghost before = out@;
        if i > 0 {
            push_char(&mut out, '/');
        }
        let t = path[i].to_text();
        out = out.concat(t.as_str());
        proof {
            let next = path@.subrange(0, i + 1);
            assert(next.drop_last() =~= path@.subrange(0, i as int));
            assert(next.last() == path@[i as int]);
            if i == 0 {
                assert(out@ =~= uuid_text(next[0].0));
            } else {
                assert(out@ =~= before + "/"@ + uuid_text(next.last().0)) by {
                    reveal_strlit("/");
                }
            }
        }
        i = i + 1;
    }
    proof {
        assert(path@.subrange(0, path@.len() as int) =~= path@);
    }
    out
}

/// Decide whether a request is audited and, when it is, capture what the
/// event needs from it (request id, trace parent, principal, org path,
/// method, route template and start instant).
pub fn audit_capture(filter: &AuditFilter, req: AuditRequest, started_at_nanos: i64) -> (r: Option<
    AuditCapture,
>)
    ensures
        r is Some <==> audit_matches(filter@, req.method@, req.path@),
        r matches Some(c) ==> captured(c, req, started_at_nanos),
        r matches Some(c) ==> opt_text(c.request_id) == header_text(opt_bytes(req.request_id))
            && c.method@ == req.method@ && c.started_at_nanos == started_at_nanos,
{
    if !filter.matches(req.method.as_str(), req.path.as_str()) {
        return None;
    }
    let ghost req0 = req;
    let path_template = match req.matched_path {
        Some(m) => m,
        None => req.path,
    };
    let request_id = optional_header_text(req.request_id);
    let traceparent = optional_header_text(req.traceparent);
    let (principal_id, org_path) = match req.org_context {
        Some(ctx) => {
            let pid = String::from_str(ctx.principal.as_str());
            let path = org_path_string(&ctx.org_path);
            (Some(pid), Some(path))
        },
        None => (None, None),
    };
    let c = AuditCapture {
        request_id,
        traceparent,
        principal_id,
        org_path,
        method: req.method,
        path_template,
        started_at_nanos,
    };
    proof {
        assert(captured(c, req0, started_at_nanos));
    }
    Some(c)
}

/// Whole milliseconds between two nanosecond instants, zero when the second
/// is not later.
pub fn duration_ms_between(started_at_nanos: i64, finished_at_nanos: i64) -> (r: u64)
    ensures
        r == audit_duration_ms(started_at_nanos, finished_at_nanos),
{
    let d: i128 = finished_at_nanos as i128 - started_at_nanos as i128;
    if d > 0 {
        let ms: i128 = d / 1_000_000;
        proof {
            assert(ms <= d);
            assert(d < 0x1_0000_0000_0000_0000);
        }
        ms as u64
    } else {
        0
    }
}

/// Build the event of a captured request from its response status, the
/// instant the response was seen and the handler's annotation, if any.
pub fn audit_event(
    capture: AuditCapture,
    status: u16,
    finished_at_nanos: i64,
    annotation: Option<AuditAnnotation>,
) -> (r: AuditEvent)
    ensures
        event_of(r, capture, status, finished_at_nanos, annotation),
        r.request_id == capture.request_id,
        r.traceparent == capture.traceparent,
        r.principal_id == capture.principal_id,
        r.org_path == capture.org_path,
        r.method == capture.method,
        r.path_template == capture.path_template,
        r.status == status,
        r.started_at_nanos == capture.started_at_nanos,
{
    let duration_ms = duration_ms_between(capture.started_at_nanos, finished_at_nanos);
    let (resource_type, resource_id, action, changes) = match annotation {
        Some(a) => (a.resource_type, a.resource_id, a.action, a.changes),
        None => (None, None, None, None),
    };
    AuditEvent {
        request_id: capture.request_id,
        traceparent: capture.traceparent,
        principal_id: capture.principal_id,
        org_path: capture.org_path,
        method: capture.method,
        path_template: capture.path_template,
        status,
        started_at_nanos: capture.started_at_nanos,
        duration_ms,
        resource_type,
        resource_id,
        action,
        changes,
    }
}

/// An audit event carries what was captured of its request and what its
/// response and the handler's annotation add: the request id, trace parent,
/// principal and org path as captured (the request id and trace parent
/// being the visible-ASCII text of those headers), the method and route,
/// the response status, the start instant, the whole milliseconds elapsed
/// (zero when the clock went back), and the annotation's fields.
pub proof fn lemma_event_carries_request(
    e: AuditEvent,
    c: AuditCapture,
    req: AuditRequest,
    started_at_nanos: i64,
    status: u16,
    finished_at_nanos: i64,
    annotation: Option<AuditAnnotation>,
)
    requires
        captured(c, req, started_at_nanos),
        event_of(e, c, status, finished_at_nanos, annotation),
    ensures
        e.request_id == c.request_id,
        opt_text(e.request_id) == header_text(opt_bytes(req.request_id)),
        opt_text(e.traceparent) == header_text(opt_bytes(req.traceparent)),
        e.method@ == req.method@,
        e.path_template@ == (match req.matched_path {
            Some(m) => m@,
            None => req.path@,
        }),
        e.status == status,
        e.started_at_nanos == started_at_nanos,
        finished_at_nanos > started_at_nanos ==> e.duration_ms == (finished_at_nanos
            - started_at_nanos) / 1_000_000,
        finished_at_nanos <= started_at_nanos ==> e.duration_ms == 0,
        annotation is None ==> e.resource_type is None && e.resource_id is None && e.action is None
            && e.changes is None,
        annotation matches Some(a) ==> e.resource_type == a.resource_type && e.resource_id
            == a.resource_id && e.action == a.action,
{
}

/// Error reported by an audit sink.
#[derive(Debug, Clone)]
pub struct AuditSinkError(pub String);

impl AuditSinkError {
    /// The message of a sink error (its `Display` form).
    pub fn message(&self) -> (r: String)
        ensures
            r@ == "audit sink error: "@ + self.0@,
    {
        concat2("audit sink error: ", self.0.as_str())
    }
}

/// The subject an event is published on: `audit.{service}.{resource_type}`,
/// with `unknown` when the event names no resource type.
pub fn audit_subject(service_name: &str, resource_type: &Option<String>) -> (r: String)
    ensures
        r@ == "audit."@ + service_name@ + "."@ + (match resource_type {
            Some(t) => t@,
            None => "unknown"@,
        }),
{
    let head = crate::text::concat3("audit.", service_name, ".");
    match resource_type {
        Some(t) => head.concat(t.as_str()),
        None => head.concat("unknown"),
    }
}

/// What became of an event handed to a bounded sink queue.
#[derive(Debug, Clone, Copy, PartialEq, Eq, Structural)]
pub enum QueueSend {
    /// The event was queued.
    Sent,
    /// The queue was full; its oldest event was dropped to make room.
    Full,
    /// The worker behind the queue is gone.
    Closed,
}

/// The result a queued sink reports for a send, and whether an event was
/// dropped (and must be counted): a full queue drops its oldest event
/// without failing the request; a closed queue is an error.
pub fn queued_emit_outcome(send: QueueSend) -> (r: (Result<(), AuditSinkError>, bool))
    ensures
        r.1 == (send == QueueSend::Full),
        r.0 is Err <==> send == QueueSend::Closed,
        r.0 matches Err(e) ==> e.0@ == "nats worker channel closed"@,
{
    match send {
        QueueSend::Sent => (Ok(()), false),
        QueueSend::Full => (Ok(()), true),
        QueueSend::Closed => (
            Err(AuditSinkError(String::from_str("nats worker channel closed"))),
            false,
        ),
    }
}

} // verus!
