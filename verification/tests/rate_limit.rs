use socle::rate_limit::{
    build_limiter, quota_period, rate_limit_verdict, rejection_fields, too_many_requests_info,
    RateLimitInfo, RateLimitLayer, RateLimitRequest,
};
use socle::{RateLimitBackend, RateLimitExtractor};

fn request() -> RateLimitRequest {
    RateLimitRequest { peer_ip: None, forwarded_for: None, real_ip: None, named_header: None }
}

#[test]
fn extractor_missing_header_returns_unknown() {
    let ext = RateLimitExtractor::Header("x-missing".into());
    assert_eq!(ext.extract(&request()), "unknown");
}

#[test]
fn ip_extractor_prefers_peer_then_forwarded_then_real_ip() {
    let ext = RateLimitExtractor::Ip;
    let mut req = request();
    req.real_ip = Some(b"10.0.0.9".to_vec());
    assert_eq!(ext.extract(&req), "10.0.0.9");
    req.forwarded_for = Some(b" 10.0.0.1 , 10.0.0.2".to_vec());
    assert_eq!(ext.extract(&req), "10.0.0.1");
    req.peer_ip = Some("127.0.0.1".into());
    assert_eq!(ext.extract(&req), "127.0.0.1");
    assert_eq!(ext.extract(&request()), "unknown");
}

#[test]
fn header_extractor_reads_named_header() {
    let ext = RateLimitExtractor::Header("x-tenant-id".into());
    let mut req = request();
    req.named_header = Some(b"tenant-a".to_vec());
    assert_eq!(ext.extract(&req), "tenant-a");
    req.named_header = Some(vec![0xc3, 0xa9]);
    assert_eq!(ext.extract(&req), "unknown");
}

#[test]
fn quota_period_divides_the_window() {
    assert_eq!(quota_period(&RateLimitBackend { limit: 2, window_secs: 60 }), (30, 0));
    assert_eq!(quota_period(&RateLimitBackend { limit: 3, window_secs: 1 }), (0, 333_333_333));
    let d = std::time::Duration::from_secs(7) / 3;
    assert_eq!(quota_period(&RateLimitBackend { limit: 3, window_secs: 7 }), (d.as_secs(), d.subsec_nanos()));
}

#[test]
fn limiter_admits_a_burst_then_rejects() {
    let mut layer = RateLimitLayer::new_memory(2, 60, RateLimitExtractor::Ip);
    let mut req = request();
    req.peer_ip = Some("10.1.1.1".into());
    assert!(layer.check_request(&req).is_none());
    assert!(layer.check_request(&req).is_none());
    assert!(layer.check_request(&req).is_some());
    let mut other = request();
    other.peer_ip = Some("10.1.1.2".into());
    assert!(layer.check_request(&other).is_none());
    let _ = build_limiter(&RateLimitBackend { limit: 1, window_secs: 1 });
}

#[test]
fn rejection_state_waits_at_least_a_second() {
    let info = too_many_requests_info(100, 0, Some(1_000));
    assert_eq!(info, RateLimitInfo { limit: 100, remaining: 0, reset: 1_001, retry_after: Some(1) });
    let info = too_many_requests_info(5, 30, None);
    assert_eq!(info.reset, 30);
    assert_eq!(rate_limit_verdict(None, 5, Some(1)), None);
    assert_eq!(rate_limit_verdict(Some(7), 5, Some(1)).unwrap().retry_after, Some(7));
    let (t, title, status, detail) = rejection_fields();
    assert_eq!((t.as_str(), title.as_str(), status), ("urn:api-bones:error:rate-limited", "Too Many Requests", 429));
    assert!(detail.starts_with("Rate limit exceeded"));
}
