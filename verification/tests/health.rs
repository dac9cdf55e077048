use socle::health::{
    group_by_name, health_paths, not_found_problem, readiness_status, worst_of, HealthStatus,
};

#[test]
fn worst_of_pass_pass_is_pass() {
    assert_eq!(worst_of(HealthStatus::Pass, HealthStatus::Pass), HealthStatus::Pass);
}

#[test]
fn worst_of_pass_warn_is_warn() {
    assert_eq!(worst_of(HealthStatus::Pass, HealthStatus::Warn), HealthStatus::Warn);
}

#[test]
fn worst_of_warn_fail_is_fail() {
    assert_eq!(worst_of(HealthStatus::Warn, HealthStatus::Fail), HealthStatus::Fail);
}

#[test]
fn worst_of_fail_pass_is_fail() {
    assert_eq!(worst_of(HealthStatus::Fail, HealthStatus::Pass), HealthStatus::Fail);
}

#[test]
fn worst_of_is_symmetric_on_all_pairs() {
    let all = [HealthStatus::Pass, HealthStatus::Warn, HealthStatus::Fail];
    for a in all {
        for b in all {
            assert_eq!(worst_of(a, b), worst_of(b, a));
        }
    }
}

#[test]
fn readiness_of_no_checks_is_200() {
    let s = readiness_status(&vec![]);
    assert_eq!(s, HealthStatus::Pass);
    assert_eq!(s.http_status(), 200);
}

#[test]
fn readiness_warns_with_200_and_fails_with_503() {
    let s = readiness_status(&vec![HealthStatus::Pass, HealthStatus::Warn]);
    assert_eq!(s, HealthStatus::Warn);
    assert_eq!(s.http_status(), 200);
    let s = readiness_status(&vec![HealthStatus::Warn, HealthStatus::Fail, HealthStatus::Pass]);
    assert_eq!(s, HealthStatus::Fail);
    assert_eq!(s.http_status(), 503);
}

#[test]
fn results_are_grouped_by_name_in_first_appearance_order() {
    let names: Vec<String> = vec!["db".into(), "cache".into(), "db".into()];
    let g = group_by_name(&names);
    assert_eq!(g.len(), 2);
    assert_eq!(g[0].0, "db");
    assert_eq!(g[0].1, vec![0, 2]);
    assert_eq!(g[1].0, "cache");
    assert_eq!(g[1].1, vec![1]);
}

#[test]
fn health_paths_are_under_the_base() {
    let (live, ready) = health_paths("/health");
    assert_eq!(live, "/health/live");
    assert_eq!(ready, "/health/ready");
}

#[test]
fn not_found_problem_keeps_uuid_request_ids_only() {
    let p = not_found_problem("0190f7d8-9c6b-7a3e-9f00-000000000001");
    assert_eq!(p.status, 404);
    assert_eq!(p.detail, "route not found");
    assert!(p.request_id.is_some());
    let p = not_found_problem("abc");
    assert!(p.request_id.is_none());
}
