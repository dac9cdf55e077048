//! Health endpoints: where they are mounted, how readiness results
//! aggregate into one status, how they are grouped by check name, and the
//! problem returned for unmatched routes.

use vstd::prelude::*;
use crate::org::parse_uuid;
use crate::org::uuid_parse;
use crate::problem::{ApiError, ErrorCode};
use crate::text::{concat2, str_eq};

verus! {

/// Health of a service or of one of its checks.
#[derive(Debug, Clone, Copy, PartialEq, Eq, Structural)]
pub enum HealthStatus {
    /// Healthy.
    Pass,
    /// Unhealthy; traffic should not be routed here.
    Fail,
    /// Degraded but operational.
    Warn,
}

/// How bad a status is: pass, then warn, then fail.
pub open spec fn severity(s: HealthStatus) -> int {
    match s {
        HealthStatus::Pass => 0,
        HealthStatus::Warn => 1,
        HealthStatus::Fail => 2,
    }
}

/// The worse of two statuses.
pub open spec fn worse(a: HealthStatus, b: HealthStatus) -> HealthStatus {
    if severity(a) >= severity(b) {
        a
    } else {
        b
    }
}

/// The HTTP status of a health status: pass and warn are `200`, fail is
/// `503`.
pub open spec fn health_http_status(s: HealthStatus) -> u16 {
    match s {
        HealthStatus::Fail => 503,
        _ => 200,
    }
}

impl HealthStatus {
    /// The HTTP status for a response carrying this health status.
    pub fn http_status(&self) -> (r: u16)
        ensures
            r == health_http_status(*self),
    {
        match self {
            HealthStatus::Pass | HealthStatus::Warn => 200,
            HealthStatus::Fail => 503,
        }
    }
}

/// The worse of two statuses: any failure fails, else any warning warns,
/// else pass.
pub fn worst_of(a: HealthStatus, b: HealthStatus) -> (r: HealthStatus)
    ensures
        r == worse(a, b),
{
    match (a, b) {
        (HealthStatus::Fail, _) | (_, HealthStatus::Fail) => HealthStatus::Fail,
        (HealthStatus::Warn, _) | (_, HealthStatus::Warn) => HealthStatus::Warn,
        _ => HealthStatus::Pass,
    }
}

/// `worst_of` does not depend on the order of its arguments.
pub proof fn lemma_worst_of_commutative(a: HealthStatus, b: HealthStatus)
    ensures
        worse(a, b) == worse(b, a),
{
}

/// `worst_of` groups either way, so readiness does not depend on how the
/// results are folded.
pub proof fn lemma_worst_of_associative(a: HealthStatus, b: HealthStatus, c: HealthStatus)
    ensures
        worse(worse(a, b), c) == worse(a, worse(b, c)),
{
}

/// A status combined with itself is unchanged; pass changes nothing and
/// fail absorbs everything.
pub proof fn lemma_worst_of_identity_and_absorption(a: HealthStatus)
    ensures
        worse(a, a) == a,
        worse(HealthStatus::Pass, a) == a,
        worse(a, HealthStatus::Fail) == HealthStatus::Fail,
{
}

/// The aggregate readiness of a list of check results, starting from pass.
pub open spec fn worst_all(s: Seq<HealthStatus>) -> HealthStatus
    decreases s.len(),
{
    if s.len() == 0 {
        HealthStatus::Pass
    } else {
        worse(worst_all(s.drop_last()), s.last())
    }
}

/// The aggregate readiness of check results: the worst of them (pass when
/// there are none).
pub fn readiness_status(results: &Vec<HealthStatus>) -> (r: HealthStatus)
    ensures
        r == worst_all(results@),
{
    let mut worst = HealthStatus::Pass;
    let mut i: usize = 0;
    while i < results.len()
        invariant
            i <= results@.len(),
            worst == worst_all(results@.subrange(0, i as int)),
        decreases results@.len() - i,
    {
        proof {
            assert(results@.subrange(0, i + 1).drop_last() =~= results@.subrange(0, i as int));
        }
        worst = worst_of(worst, results[i]);
        i = i + 1;
    }
    proof {
        assert(results@.subrange(0, results@.len() as int) =~= results@);
    }
    worst
}

/// Readiness fails exactly when some check fails, and passes exactly when
/// every check passes.
pub proof fn lemma_readiness_fails_iff_some_check_fails(s: Seq<HealthStatus>)
    ensures
        worst_all(s) == HealthStatus::Fail <==> exists|i: int|
            0 <= i < s.len() && s[i] == HealthStatus::Fail,
        worst_all(s) == HealthStatus::Pass <==> forall|i: int|
            0 <= i < s.len() ==> s[i] == HealthStatus::Pass,
    decreases s.len(),
{
    if s.len() > 0 {
        let p = s.drop_last();
        lemma_readiness_fails_iff_some_check_fails(p);
        assert forall|i: int| 0 <= i < p.len() implies p[i] == s[i] by {}
        if worst_all(s) == HealthStatus::Fail {
            if worst_all(p) == HealthStatus::Fail {
                let i = choose|i: int| 0 <= i < p.len() && p[i] == HealthStatus::Fail;
                assert(s[i] == HealthStatus::Fail);
            } else {
                assert(s[s.len() - 1] == HealthStatus::Fail);
            }
        }
        if exists|i: int| 0 <= i < s.len() && s[i] == HealthStatus::Fail {
            let i = choose|i: int| 0 <= i < s.len() && s[i] == HealthStatus::Fail;
            if i < s.len() - 1 {
                assert(p[i] == HealthStatus::Fail);
            }
        }
        if forall|i: int| 0 <= i < s.len() ==> s[i] == HealthStatus::Pass {
            assert(s[s.len() - 1] == HealthStatus::Pass);
        }
    }
}

// ── Grouping by name ─────────────────────────────────────────────────────────

/// The position of the group holding `name`, if any.
pub open spec fn group_index(g: Seq<(Seq<char>, Seq<int>)>, name: Seq<char>) -> Option<int>
    decreases g.len(),
{
    if g.len() == 0 {
        None
    } else if g.last().0 == name {
        Some(g.len() - 1)
    } else {
        group_index(g.drop_last(), name)
    }
}

/// Results grouped by check name: one group per distinct name, in the order
/// names first appear, each holding the positions of that name's results in
/// check order.
pub open spec fn grouped_by_name(names: Seq<Seq<char>>) -> Seq<(Seq<char>, Seq<int>)>
    decreases names.len(),
{
    if names.len() == 0 {
        Seq::empty()
    } else {
        let g = grouped_by_name(names.drop_last());
        let i = names.len() - 1;
        match group_index(g, names[i]) {
            Some(k) => g.update(k, (g[k].0, g[k].1.push(i))),
            None => g.push((names[i], seq![i])),
        }
    }
}

/// The view of a grouping.
pub open spec fn groups_view(g: Seq<(String, Vec<usize>)>) -> Seq<(Seq<char>, Seq<int>)> {
    g.map_values(|e: (String, Vec<usize>)| (e.0@, e.1@.map_values(|x: usize| x as int)))
}

/// `group_index` finds a group with the given name.
proof fn lemma_group_index(g: Seq<(Seq<char>, Seq<int>)>, name: Seq<char>)
    ensures
        group_index(g, name) matches Some(k) ==> 0 <= k < g.len() && g[k].0 == name,
        group_index(g, name) is None ==> forall|k: int| 0 <= k < g.len() ==> g[k].0 != name,
    decreases g.len(),
{
    if g.len() > 0 {
        lemma_group_index(g.drop_last(), name);
        if g.last().0 != name {
            assert forall|k: int| 0 <= k < g.len() - 1 implies g[k] == g.drop_last()[k] by {}
        }
    }
}

/// Find the group of a name.
fn find_group(g: &Vec<(String, Vec<usize>)>, name: &str) -> (r: Option<usize>)
    ensures
        r matches Some(k) ==> group_index(groups_view(g@), name@) == Some(k as int),
        r is None ==> group_index(groups_view(g@), name@) is None,
{
    let ghost gv = groups_view(g@);
    let mut k: usize = g.len();
    proof {
        assert(gv.subrange(0, k as int) =~= gv);
    }
    while k > 0
        invariant
            k <= g@.len(),
            gv == groups_view(g@),
            group_index(gv, name@) == group_index(gv.subrange(0, k as int), name@),
        decreases k,
    {
        proof {
            assert(gv.subrange(0, k as int).drop_last() =~= gv.subrange(0, k - 1));
            assert(gv.subrange(0, k as int).last() == gv[k - 1]);
        }
        if str_eq(g[k - 1].0.as_str(), name) {
            return Some(k - 1);
        }
        k = k - 1;
    }
    proof {
        assert(gv.subrange(0, 0) =~= Seq::<(Seq<char>, Seq<int>)>::empty());
    }
    None
}

/// Group check results by name: one group per distinct name, in the order
/// names first appear, each listing the positions of its results.
pub fn group_by_name(names: &Vec<String>) -> (r: Vec<(String, Vec<usize>)>)
    ensures
        groups_view(r@) == grouped_by_name(names@.map_values(|s: String| s@)),
{
    let ghost nv = names@.map_values(|s: String| s@);
    let mut g: Vec<(String, Vec<usize>)> = Vec::new();
    let mut i: usize = 0;
    proof {
        assert(nv.subrange(0, 0) =~= Seq::<Seq<char>>::empty());
        assert(groups_view(g@) =~= Seq::<(Seq<char>, Seq<int>)>::empty());
    }
    while i < names.len()
        invariant
            i <= names@.len(),
            nv == names@.map_values(|s: String| s@),
            groups_view(g@) == grouped_by_name(nv.subrange(0, i as int)),
        decreases names@.len() - i,
    {
        let ghost before = groups_view(g@);
        let ghost pre = nv.subrange(0, i + 1);
        proof {
            assert(pre.drop_last() =~= nv.subrange(0, i as int));
            assert(pre[i as int] == names@[i as int]@);
        }
        match find_group(&g, names[i].as_str()) {
            Some(k) => {
                proof {
                    lemma_group_index(before, names@[i as int]@);
                }
                let ghost og = g@;
                let mut entry = g.remove(k);
                let ghost old_ids = entry.1@;
                entry.1.push(i);
                let ghost new_entry = entry;
                g.insert(k, entry);
                proof {
                    assert(g@ =~= og.update(k as int, new_entry));
                    assert(new_entry.1@.map_values(|x: usize| x as int) =~= old_ids.map_values(
                        |x: usize| x as int,
                    ).push(i as int));
                    assert(groups_view(g@) =~= before.update(
                        k as int,
                        (before[k as int].0, before[k as int].1.push(i as int)),
                    ));
                }
            },
            None => {
                let ghost og = g@;
                let ids = vec![i];
                let name = String::from_str(names[i].as_str());
                proof {
                    assert(ids@.map_values(|x: usize| x as int) =~= seq![i as int]);
                }
                g.push((name, ids));
                proof {
                    assert(g@ =~= og.push((name, ids)));
                    assert(groups_view(g@) =~= before.push((names@[i as int]@, seq![i as int])));
                }
            },
        }
        i = i + 1;
    }
    proof {
        assert(nv.subrange(0, names@.len() as int) =~= nv);
    }
    g
}

// ── Paths and fallback ───────────────────────────────────────────────────────

/// The liveness and readiness paths under a base path.
pub fn health_paths(base: &str) -> (r: (String, String))
    ensures
        r.0@ == base@ + "/live"@,
        r.1@ == base@ + "/ready"@,
{
    (concat2(base, "/live"), concat2(base, "/ready"))
}

/// The problem returned for an unmatched route: a `404` that does not echo
/// the path, carrying the request id when it is a UUID.
pub fn not_found_problem(request_id: &str) -> (r: ApiError)
    ensures
        r.code == ErrorCode::ResourceNotFound,
        r.title@ == ErrorCode::ResourceNotFound.spec_title(),
        r.status == 404,
        r.detail@ == "route not found"@,
        r.request_id == uuid_parse(request_id@),
        r.errors@.len() == 0,
{
    let err = ApiError::not_found(String::from_str("route not found"));
    proof {
        assert(ErrorCode::ResourceNotFound.spec_status() == 404);
    }
    match parse_uuid(request_id) {
        Some(u) => err.with_request_id(u),
        None => err,
    }
}

} // verus!
