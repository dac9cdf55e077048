//! Organization context: tenant identifiers, principals, roles and the
//! per-request context bundle, the org-scoped access policy, and the
//! resolution of the context from a request.

use vstd::prelude::*;
use crate::problem::{ApiError, ErrorCode};
use crate::etag::trim_ascii;
use crate::text::{push_char, str_eq};

verus! {

// ── Identifiers ──────────────────────────────────────────────────────────────

/// Tenant (organization) identifier: a UUID held as its 128-bit value.
#[derive(Debug, Clone, Copy, PartialEq, Eq, Hash, Structural)]
pub struct OrgId(pub u128);

/// The lowercase hexadecimal digit of a value below sixteen.
pub open spec fn hex_digit(n: int) -> char {
    if n < 10 {
        ((48 + n) as u8) as char
    } else {
        ((87 + n) as u8) as char
    }
}

/// Position of the hex digit shown at character `i` of the hyphenated form.
pub open spec fn uuid_digit_index(i: int) -> int {
    i - (if i > 8 { 1int } else { 0int }) - (if i > 13 { 1int } else { 0int }) - (if i > 18 {
        1int
    } else {
        0int
    }) - (if i > 23 { 1int } else { 0int })
}

/// The `k`-th hexadecimal digit (most significant first) of a 128-bit value.
pub open spec fn uuid_nibble(u: u128, k: int) -> int {
    ((u >> ((4 * (31 - k)) as u128)) & 15u128) as int
}

/// The hyphenated lowercase text of a UUID (`8-4-4-4-12` hex digits).
pub open spec fn uuid_text(u: u128) -> Seq<char> {
    Seq::new(
        36,
        |i: int|
            if i == 8 || i == 13 || i == 18 || i == 23 {
                '-'
            } else {
                hex_digit(uuid_nibble(u, uuid_digit_index(i)))
            },
    )
}

/// Render a UUID in its hyphenated lowercase form (`Display` of
/// `uuid::Uuid`).
#[verifier::external_body]
pub(crate) fn uuid_to_string(u: u128) -> (r: String)
    ensures
        r@ == uuid_text(u),
{
    uuid::Uuid::from_u128(u).to_string()
}

/// What `uuid::Uuid::parse_str` gives for a text: the 128-bit value, or
/// `None` when the text is not a UUID in one of the accepted forms.
pub uninterp spec fn uuid_parse(s: Seq<char>) -> Option<u128>;

/// Parse a UUID (`uuid::Uuid::parse_str`). The result is named by
/// [`uuid_parse`]; nothing more about the accepted forms is stated here.
#[verifier::external_body]
pub(crate) fn parse_uuid(s: &str) -> (r: Option<u128>)
    ensures
        r == uuid_parse(s@),
{
    uuid::Uuid::parse_str(s).ok().map(|u| u.as_u128())
}

/// The pieces of a text between commas (`str::split(',')`): one more piece
/// than there are commas.
pub open spec fn comma_pieces(s: Seq<char>) -> Seq<Seq<char>>
    decreases s.len(),
{
    if s.len() == 0 {
        seq![Seq::empty()]
    } else {
        let rest = comma_pieces(s.drop_last());
        if s.last() == ',' {
            rest.push(Seq::empty())
        } else {
            rest.update(rest.len() - 1, rest.last().push(s.last()))
        }
    }
}

/// The organization ids of some pieces, each trimmed and parsed as a UUID;
/// `None` when one does not parse.
pub open spec fn parse_pieces(ps: Seq<Seq<char>>) -> Option<Seq<OrgId>>
    decreases ps.len(),
{
    if ps.len() == 0 {
        Some(Seq::empty())
    } else {
        match (parse_pieces(ps.drop_last()), uuid_parse(trim_ascii(ps.last()))) {
            (Some(p), Some(u)) => Some(p.push(OrgId(u))),
            _ => None,
        }
    }
}

/// What `api_bones::OrgPath::from_str` gives for an ASCII text: an empty
/// path for empty text, else the ids of its comma-separated entries, each
/// trimmed and parsed as a UUID (`OrgId::from_str`), or `None` when one
/// entry is not a UUID.
pub open spec fn org_path_parse(s: Seq<char>) -> Option<Seq<OrgId>> {
    if s.len() == 0 {
        Some(Seq::empty())
    } else {
        parse_pieces(comma_pieces(s))
    }
}

/// Whether every character of a text is ASCII.
pub open spec fn ascii_text(s: Seq<char>) -> bool {
    forall|i: int| 0 <= i < s.len() ==> (#[trigger] s[i] as u32) < 128
}

/// Parse an `X-Org-Path` header value (`api_bones::OrgPath::from_str`: split
/// on `,`, `str::trim` each entry, parse each as `OrgId`). On ASCII text,
/// `str::trim` removes exactly the ASCII whitespace, so the result is
/// [`org_path_parse`]; the UUID grammar stays named by [`uuid_parse`].
#[verifier::external_body]
pub(crate) fn parse_org_path(s: &str) -> (r: Option<Vec<OrgId>>)
    requires
        ascii_text(s@),
    ensures
        r matches Some(v) ==> org_path_parse(s@) == Some(v@),
        r is None ==> org_path_parse(s@) is None,
{
    s.parse::<api_bones::org_id::OrgPath>().ok().map(
        |p| p.into_inner().into_iter().map(|o| OrgId(o.inner().as_u128())).collect(),
    )
}

impl OrgId {
    /// The hyphenated text of this organization id.
    pub fn to_text(&self) -> (r: String)
        ensures
            r@ == uuid_text(self.0),
    {
        uuid_to_string(self.0)
    }

    /// Parse an organization id (`api_bones::OrgId::from_str`, which parses
    /// a UUID).
    pub fn parse(s: &str) -> (r: Option<OrgId>)
        ensures
            r == (match uuid_parse(s@) {
                Some(u) => Some(OrgId(u)),
                None => None,
            }),
    {
        match parse_uuid(s) {
            Some(u) => Some(OrgId(u)),
            None => None,
        }
    }
}

/// Whether a header byte is visible ASCII (or a tab), the bytes that
/// `http::HeaderValue::to_str` accepts.
pub open spec fn visible_ascii(b: u8) -> bool {
    (32 <= b && b < 127) || b == 9
}

/// Text of a raw header value (`http::HeaderValue::to_str`): present exactly
/// when every byte is visible ASCII, and then it holds those bytes as
/// characters.
#[verifier::external_body]
pub(crate) fn header_value_text(raw: &[u8]) -> (r: Option<String>)
    ensures
        r is Some <==> (forall|i: int| 0 <= i < raw@.len() ==> visible_ascii(#[trigger] raw@[i])),
        r matches Some(s) ==> s@.len() == raw@.len() && (forall|i: int|
            0 <= i < raw@.len() ==> #[trigger] s@[i] == raw@[i] as char),
{
    http::HeaderValue::from_bytes(raw).ok().and_then(|v| v.to_str().ok().map(|s| s.to_string()))
}

// ── Principals and roles ─────────────────────────────────────────────────────

/// The kind of actor a principal represents.
#[derive(Debug, Clone, Copy, PartialEq, Eq, Structural)]
pub enum PrincipalKind {
    /// Human or end-user identity.
    User,
    /// Service-to-service identity.
    Service,
    /// Platform-level system actor.
    System,
    /// Hardware-bound identity.
    Device,
    /// Autonomous automation principal.
    Agent,
}

/// An actor: its opaque identifier and its kind.
#[derive(Debug, Clone)]
pub struct Principal {
    /// The opaque principal identifier.
    pub id: String,
    /// The kind of actor.
    pub kind: PrincipalKind,
}

impl Principal {
    /// A system principal with the given name.
    pub fn system(id: &str) -> (r: Principal)
        ensures
            r.id@ == id@,
            r.kind == PrincipalKind::System,
    {
        Principal { id: String::from_str(id), kind: PrincipalKind::System }
    }

    /// The principal's identifier.
    pub fn as_str(&self) -> (r: &str)
        ensures
            r@ == self.id@,
    {
        self.id.as_str()
    }
}

/// Authorization role identifier: a role name.
#[derive(Debug, Clone)]
pub struct Role(String);

impl View for Role {
    type V = Seq<char>;

    closed spec fn view(&self) -> Seq<char> {
        self.0@
    }
}

impl Role {
    /// A role with the given name.
    pub fn new(name: &str) -> (r: Role)
        ensures
            r@ == name@,
    {
        Role(String::from_str(name))
    }

    /// The role name.
    pub fn as_str(&self) -> (r: &str)
        ensures
            r@ == self@,
    {
        self.0.as_str()
    }

    /// The role name as an owned string (the `Display` form).
    pub fn to_text(&self) -> (r: String)
        ensures
            r@ == self@,
    {
        self.0.clone()
    }
}

impl<'a> From<&'a str> for Role {
    fn from(s: &'a str) -> (r: Role)
        ensures
            r@ == s@,
    {
        Role(String::from_str(s))
    }
}

impl<'a> vstd::std_specs::convert::FromSpecImpl<&'a str> for Role {
    open spec fn obeys_from_spec() -> bool {
        false
    }

    open spec fn from_spec(s: &'a str) -> Self {
        arbitrary()
    }
}

impl From<String> for Role {
    fn from(s: String) -> (r: Role)
        ensures
            r@ == s@,
    {
        Role(s)
    }
}

impl vstd::std_specs::convert::FromSpecImpl<String> for Role {
    open spec fn obeys_from_spec() -> bool {
        true
    }

    closed spec fn from_spec(s: String) -> Self {
        Role(s)
    }
}

/// Scope at which a role binding applies.
#[derive(Debug, Clone, Copy, PartialEq, Eq, Structural)]
pub enum RoleScope {
    /// Applies to exactly this org node only.
    Self_,
    /// Applies to this org and all its descendants.
    Subtree,
    /// Applies to exactly the named org (cross-org delegation).
    Specific(OrgId),
}

/// An authorization role paired with the scope at which it is valid.
#[derive(Debug, Clone)]
pub struct RoleBinding {
    /// The role being granted.
    pub role: Role,
    /// The org scope over which this binding applies.
    pub scope: RoleScope,
}

/// Kind of attestation token or credential.
#[derive(Debug, Clone, Copy, PartialEq, Eq, Structural)]
pub enum AttestationKind {
    /// Biscuit capability token.
    Biscuit,
    /// JWT token.
    Jwt,
    /// API key.
    ApiKey,
    /// mTLS certificate.
    Mtls,
}

/// Opaque attestation / credential bundle.
#[derive(Debug, Clone)]
pub struct Attestation {
    /// The kind of attestation.
    pub kind: AttestationKind,
    /// The raw attestation bytes.
    pub raw: Vec<u8>,
}

// ── Organization context ─────────────────────────────────────────────────────

/// Platform context bundle: org, principal, request id, roles, org path and
/// attestation.
#[derive(Debug, Clone)]
pub struct OrganizationContext {
    /// Tenant id.
    pub org_id: OrgId,
    /// Actor identity.
    pub principal: Principal,
    /// Request tracing id (a 128-bit UUID).
    pub request_id: u128,
    /// Authorization roles.
    pub roles: Vec<RoleBinding>,
    /// Org path from root to the acting org (inclusive). Empty = platform
    /// scope.
    pub org_path: Vec<OrgId>,
    /// Optional credential / attestation.
    pub attestation: Option<Attestation>,
}

impl OrganizationContext {
    /// A context with org, principal and request id; no roles, an empty org
    /// path and no attestation.
    pub fn new(org_id: OrgId, principal: Principal, request_id: u128) -> (r: Self)
        ensures
            r.org_id == org_id,
            r.principal == principal,
            r.request_id == request_id,
            r.roles@.len() == 0,
            r.org_path@.len() == 0,
            r.attestation is None,
    {
        OrganizationContext {
            org_id,
            principal,
            request_id,
            roles: Vec::new(),
            org_path: Vec::new(),
            attestation: None,
        }
    }

    /// Replace the roles.
    pub fn with_roles(self, roles: Vec<RoleBinding>) -> (r: Self)
        ensures
            r == (OrganizationContext { roles: roles, ..self }),
    {
        OrganizationContext { roles, ..self }
    }

    /// Replace the org path.
    pub fn with_org_path(self, org_path: Vec<OrgId>) -> (r: Self)
        ensures
            r == (OrganizationContext { org_path: org_path, ..self }),
    {
        OrganizationContext { org_path, ..self }
    }

    /// Set the attestation.
    pub fn with_attestation(self, attestation: Attestation) -> (r: Self)
        ensures
            r == (OrganizationContext { attestation: Some(attestation), ..self }),
    {
        OrganizationContext { attestation: Some(attestation), ..self }
    }
}

// ── Access policy ────────────────────────────────────────────────────────────

/// The denial detail of the org-scoped policies.
pub open spec fn cross_org_detail() -> Seq<char> {
    "cross-org access denied"@
}

/// Policy that decides whether a caller may access resources belonging to
/// a target org.
pub trait OrgPolicy {
    /// Whether the policy lets `caller` access `target`.
    spec fn spec_allows(&self, caller: OrganizationContext, target: OrgId) -> bool;

    /// `Ok(())` if `caller` may access `target`, else a problem describing the
    /// denial.
    fn allows(&self, caller: &OrganizationContext, target: &OrgId) -> (r: Result<(), ApiError>)
        ensures
            r is Ok <==> self.spec_allows(*caller, *target),
    ;

    /// Like [`OrgPolicy::allows`], but every denial becomes a `403 Forbidden`
    /// with detail `cross-org access denied` and the caller's request id as
    /// its `instance`.
    fn check_target(&self, caller: &OrganizationContext, target: &OrgId) -> (r: Result<
        (),
        ApiError,
    >)
        ensures
            r is Ok <==> self.spec_allows(*caller, *target),
            r is Err ==> r->Err_0 == (ApiError {
                request_id: Some(caller.request_id),
                ..r->Err_0
            }) && (ApiError { request_id: None, ..r->Err_0 }).spec_new(
                ErrorCode::Forbidden,
                cross_org_detail(),
            ),
    {
        match self.allows(caller, target) {
            Ok(()) => Ok(()),
            Err(_) => Err(
                ApiError::new(ErrorCode::Forbidden, String::from_str("cross-org access denied"))
                    .with_request_id(caller.request_id),
            ),
        }
    }
}

/// Index of the first occurrence of `x` in `s`, if any.
pub open spec fn first_index_of(s: Seq<OrgId>, x: OrgId) -> Option<int> {
    if exists|p: int| 0 <= p < s.len() && s[p] == x {
        Some(choose|p: int| 0 <= p < s.len() && s[p] == x && forall|q: int| 0 <= q < p ==> s[q] != x)
    } else {
        None
    }
}

/// Whether `target` lies in the part of `path` strictly after the first
/// occurrence of `org`.
pub open spec fn in_descendant_suffix(path: Seq<OrgId>, org: OrgId, target: OrgId) -> bool {
    exists|p: int, k: int|
        #![trigger path[p], path[k]]
        0 <= p < k < path.len() && path[p] == org && (forall|q: int|
            0 <= q < p ==> path[q] != org) && path[k] == target
}

/// The default policy: a caller may access its own org and any org that
/// follows its own org in its org path (a subtree grant).
pub struct AncestryOrgPolicy;

/// The ancestry rule.
pub open spec fn ancestry_allows(caller: OrganizationContext, target: OrgId) -> bool {
    caller.org_id == target || in_descendant_suffix(caller.org_path@, caller.org_id, target)
}

impl OrgPolicy for AncestryOrgPolicy {
    open spec fn spec_allows(&self, caller: OrganizationContext, target: OrgId) -> bool {
        ancestry_allows(caller, target)
    }

    /// The ancestry rule; a denial is a `403 Forbidden` with detail
    /// `cross-org access denied`.
    fn allows(&self, caller: &OrganizationContext, target: &OrgId) -> (r: Result<(), ApiError>)
        ensures
            r is Err ==> r->Err_0.spec_new(ErrorCode::Forbidden, cross_org_detail()),
    {
        if caller.org_id == *target {
            return Ok(());
        }
        let path = &caller.org_path;
        let n = path.len();
        let mut pos: usize = 0;
        while pos < n && path[pos] != caller.org_id
            invariant
                n == path@.len(),
                path@ == caller.org_path@,
                pos <= n,
                forall|q: int| 0 <= q < pos ==> path@[q] != caller.org_id,
            decreases n - pos,
        {
            pos = pos + 1;
        }
        if pos < n {
            let mut k: usize = pos + 1;
            while k < n
                invariant
                    n == path@.len(),
                    path@ == caller.org_path@,
                    pos < n,
                    pos + 1 <= k <= n,
                    path@[pos as int] == caller.org_id,
                    forall|q: int| 0 <= q < pos ==> path@[q] != caller.org_id,
                    forall|j: int| pos < j < k ==> path@[j] != *target,
                decreases n - k,
            {
                if path[k] == *target {
                    proof {
                        assert(in_descendant_suffix(path@, caller.org_id, *target)) by {
                            assert(path@[pos as int] == caller.org_id);
                            assert(path@[k as int] == *target);
                        }
                    }
                    return Ok(());
                }
                k = k + 1;
            }
            proof {
                assert forall|p: int, k2: int|
                    #![trigger path@[p], path@[k2]]
                    0 <= p < k2 < path@.len() && path@[p] == caller.org_id && (forall|q: int|
                        0 <= q < p ==> path@[q] != caller.org_id) implies path@[k2]
                    != *target by {
                    if p < pos {
                    } else if p > pos {
                        assert(path@[pos as int] == caller.org_id);
                    }
                }
            }
        } else {
            proof {
                assert forall|p: int, k2: int|
                    #![trigger path@[p], path@[k2]]
                    0 <= p < k2 < path@.len() && path@[p] == caller.org_id && (forall|q: int|
                        0 <= q < p ==> path@[q] != caller.org_id) implies path@[k2]
                    != *target by {
                    assert(path@[p] != caller.org_id);
                }
            }
        }
        Err(ApiError::new(ErrorCode::Forbidden, String::from_str("cross-org access denied")))
    }
}

/// The ancestry policy always lets a caller access its own org.
pub proof fn lemma_ancestry_allows_self(caller: OrganizationContext)
    ensures
        ancestry_allows(caller, caller.org_id),
{
}

/// The ancestry policy never grants an org that is neither the caller's own
/// org nor anywhere in its org path.
pub proof fn lemma_ancestry_denies_unrelated(caller: OrganizationContext, target: OrgId)
    requires
        target != caller.org_id,
        forall|i: int| 0 <= i < caller.org_path@.len() ==> caller.org_path@[i] != target,
    ensures
        !ancestry_allows(caller, target),
{
}

/// The ancestry policy never grants an ancestor: an org that precedes the
/// caller's own org in a path without repeated entries.
pub proof fn lemma_ancestry_denies_ancestors(caller: OrganizationContext, a: int, c: int)
    requires
        0 <= a < c < caller.org_path@.len(),
        caller.org_path@[c] == caller.org_id,
        forall|i: int, j: int|
            0 <= i < j < caller.org_path@.len() ==> caller.org_path@[i] != caller.org_path@[j],
    ensures
        !ancestry_allows(caller, caller.org_path@[a]),
{
    let path = caller.org_path@;
    assert forall|p: int, k: int|
        #![trigger path[p], path[k]]
        0 <= p < k < path.len() && path[p] == caller.org_id && (forall|q: int|
            0 <= q < p ==> path[q] != caller.org_id) implies path[k] != path[a] by {
        if p != c {
            if p < c {
                assert(path[p] != path[c]);
            } else {
                assert(path[c] != path[p]);
            }
        }
        if k != a {
            if k < a {
                assert(path[k] != path[a]);
            } else {
                assert(path[a] != path[k]);
            }
        }
    }
}

/// Every descendant listed after the caller's own org is granted.
pub proof fn lemma_ancestry_allows_descendants(caller: OrganizationContext, c: int, k: int)
    requires
        0 <= c < k < caller.org_path@.len(),
        caller.org_path@[c] == caller.org_id,
        forall|q: int| 0 <= q < c ==> caller.org_path@[q] != caller.org_id,
    ensures
        ancestry_allows(caller, caller.org_path@[k]),
{
    assert(caller.org_path@[c] == caller.org_id && caller.org_path@[k] == caller.org_path@[k]);
}

// ── Context resolution ───────────────────────────────────────────────────────

/// Which mechanism resolved the organization context of a request.
#[derive(Debug, Clone, Copy, PartialEq, Eq, Structural)]
pub enum OrgContextSource {
    /// Resolved from an authenticated principal (auth layer).
    PrincipalClaim,
    /// Resolved from the `X-Org-Id` / `X-Org-Path` headers.
    Header,
}

/// The outcome of context resolution, given the context inserted by the
/// auth layer, the org id of the `X-Org-Id` header, the org path of the
/// `X-Org-Path` header and the request id.
pub open spec fn resolution_ok(
    auth: Option<OrganizationContext>,
    header_org: Option<OrgId>,
    header_path: Option<Seq<OrgId>>,
    request_id: u128,
    ctx: OrganizationContext,
    source: OrgContextSource,
) -> bool {
    match auth {
        Some(a) => ctx == a && source == OrgContextSource::PrincipalClaim,
        None => match header_org {
            Some(o) => {
                &&& source == OrgContextSource::Header
                &&& ctx.org_id == o
                &&& ctx.principal.id@ == "unauthenticated"@
                &&& ctx.principal.kind == PrincipalKind::System
                &&& ctx.request_id == request_id
                &&& ctx.roles@.len() == 0
                &&& ctx.attestation is None
                &&& ctx.org_path@ == (match header_path {
                    Some(p) => p,
                    None => seq![o],
                })
            },
            None => false,
        },
    }
}

/// Resolve the organization context of a request.
///
/// A context inserted by the auth layer wins; the `X-Org-Id` header is the
/// fallback. When both are present and name different orgs the request is
/// rejected with `403` (`cross-tenant request rejected`); when neither is
/// present it is rejected with `401` (`missing org context`).
pub fn resolve_org_context(
    auth: Option<OrganizationContext>,
    header_org: Option<OrgId>,
    header_path: Option<Vec<OrgId>>,
    request_id: u128,
) -> (r: Result<(OrganizationContext, OrgContextSource), ApiError>)
    ensures
        (auth is Some && header_org is Some && auth->Some_0.org_id != header_org->Some_0) ==> (
        r is Err && r->Err_0.spec_new(ErrorCode::Forbidden, "cross-tenant request rejected"@)),
        (auth is None && header_org is None) ==> (r is Err && r->Err_0.spec_new(
            ErrorCode::Unauthorized,
            "missing org context"@,
        )),
        !(auth is Some && header_org is Some && auth->Some_0.org_id != header_org->Some_0) && !(
        auth is None && header_org is None) ==> (r is Ok && resolution_ok(
            auth,
            header_org,
            match header_path {
                Some(p) => Some(p@),
                None => None,
            },
            request_id,
            r->Ok_0.0,
            r->Ok_0.1,
        )),
{
    if let (Some(ctx), Some(hdr)) = (&auth, &header_org) {
        if ctx.org_id != *hdr {
            return Err(ApiError::forbidden(String::from_str("cross-tenant request rejected")));
        }
    }
    match auth {
        Some(ctx) => Ok((ctx, OrgContextSource::PrincipalClaim)),
        None => match header_org {
            Some(org_id) => {
                let path = match header_path {
                    Some(p) => p,
                    None => {
                        let v = vec![org_id];
                        proof {
                            assert(v@ =~= seq![org_id]);
                        }
                        v
                    },
                };
                let ctx = OrganizationContext::new(
                    org_id,
                    Principal::system("unauthenticated"),
                    request_id,
                ).with_org_path(path);
                Ok((ctx, OrgContextSource::Header))
            },
            None => Err(ApiError::unauthorized(String::from_str("missing org context"))),
        },
    }
}

/// The org id carried by a raw `X-Org-Id` header value: absent when the
/// header is missing, not visible ASCII, or not a UUID.
pub open spec fn header_org_id(raw: Option<Seq<u8>>) -> Option<OrgId> {
    match raw {
        Some(b) => if forall|i: int| 0 <= i < b.len() ==> visible_ascii(#[trigger] b[i]) {
            match uuid_parse(b.map_values(|x: u8| x as char)) {
                Some(u) => Some(OrgId(u)),
                None => None,
            }
        } else {
            None
        },
        None => None,
    }
}

/// The org path carried by a raw `X-Org-Path` header value: absent when the
/// header is missing, not visible ASCII, or does not parse.
pub open spec fn header_org_path(raw: Option<Seq<u8>>) -> Option<Seq<OrgId>> {
    match raw {
        Some(b) => if forall|i: int| 0 <= i < b.len() ==> visible_ascii(#[trigger] b[i]) {
            org_path_parse(b.map_values(|x: u8| x as char))
        } else {
            None
        },
        None => None,
    }
}

/// The text of a raw header value, when it is visible ASCII.
fn header_text(raw: &Option<Vec<u8>>) -> (r: Option<String>)
    ensures
        raw is None ==> r is None,
        raw matches Some(b) ==> ((r is Some <==> (forall|i: int|
            0 <= i < b@.len() ==> visible_ascii(#[trigger] b@[i]))) && (r matches Some(s) ==> s@
            == b@.map_values(|x: u8| x as char))),
{
    match raw {
        Some(b) => {
            let t = header_value_text(b.as_slice());
            proof {
                if let Some(s) = &t {
                    assert(s@ =~= b@.map_values(|x: u8| x as char));
                }
            }
            t
        },
        None => None,
    }
}

/// Resolve the organization context from the auth-layer context, the raw
/// `X-Org-Id` and `X-Org-Path` header values and the request id.
pub fn org_context_from_request(
    auth: Option<OrganizationContext>,
    org_header: Option<Vec<u8>>,
    path_header: Option<Vec<u8>>,
    request_id: u128,
) -> (r: Result<(OrganizationContext, OrgContextSource), ApiError>)
    ensures
        ({
            let header_org = header_org_id(
                match org_header {
                    Some(b) => Some(b@),
                    None => None,
                },
            );
            let header_path = header_org_path(
                match path_header {
                    Some(b) => Some(b@),
                    None => None,
                },
            );
            &&& (auth is Some && header_org is Some && auth->Some_0.org_id != header_org->Some_0)
                ==> (r is Err && r->Err_0.spec_new(
                ErrorCode::Forbidden,
                "cross-tenant request rejected"@,
            ))
            &&& (auth is None && header_org is None) ==> (r is Err && r->Err_0.spec_new(
                ErrorCode::Unauthorized,
                "missing org context"@,
            ))
            &&& (!(auth is Some && header_org is Some && auth->Some_0.org_id
                != header_org->Some_0) && !(auth is None && header_org is None)) ==> (r is Ok
                && resolution_ok(auth, header_org, header_path, request_id, r->Ok_0.0, r->Ok_0.1))
        }),
{
    let header_org = match header_text(&org_header) {
        Some(s) => OrgId::parse(s.as_str()),
        None => None,
    };
    let header_path = match header_text(&path_header) {
        Some(s) => {
            proof {
                assert forall|i: int| 0 <= i < s@.len() implies (#[trigger] s@[i] as u32) < 128 by {
                    let b = path_header->Some_0@;
                    assert(visible_ascii(b[i]));
                    assert(s@[i] == b[i] as char);
                }
            }
            parse_org_path(s.as_str())
        },
        None => None,
    };
    resolve_org_context(auth, header_org, header_path, request_id)
}

/// Pick the request id: the one carried by the request-id header when it is
/// a UUID, else `fallback` (a freshly generated id).
pub fn request_id_or(raw: Option<Vec<u8>>, fallback: u128) -> (r: u128)
    ensures
        ({
            let parsed = match raw {
                Some(b) => if forall|i: int| 0 <= i < b@.len() ==> visible_ascii(#[trigger] b@[i]) {
                    uuid_parse(b@.map_values(|x: u8| x as char))
                } else {
                    None
                },
                None => None,
            };
            r == match parsed {
                Some(u) => u,
                None => fallback,
            }
        }),
{
    match header_text(&raw) {
        Some(s) => match parse_uuid(s.as_str()) {
            Some(u) => u,
            None => fallback,
        },
        None => fallback,
    }
}

/// The rejection of the isolation layer: `None` when the request carries an
/// organization context, else a `401` with detail `missing org context`.
pub fn isolation_rejection(has_context: bool) -> (r: Option<ApiError>)
    ensures
        has_context ==> r is None,
        !has_context ==> (r is Some && r->Some_0.spec_new(
            ErrorCode::Unauthorized,
            "missing org context"@,
        )),
{
    if has_context {
        None
    } else {
        Some(ApiError::unauthorized(String::from_str("missing org context")))
    }
}

} // verus!
