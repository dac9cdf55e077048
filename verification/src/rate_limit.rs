//! In-process rate limiting: the backend settings, the key a request is
//! limited under, the GCRA quota handed to `governor`, and the rejection
//! that an exhausted key receives.

use vstd::prelude::*;
use crate::etag::{trim_ascii, trim_ascii_chars};
use crate::org::{header_value_text, visible_ascii};
use crate::text::{chars_of, opt_bytes, string_from_chars};

verus! {

/// In-process GCRA rate limiter configuration.
#[derive(Debug, Clone, Copy, PartialEq, Eq, Structural)]
pub struct RateLimitBackend {
    /// Max requests per window.
    pub limit: u32,
    /// Window duration in seconds.
    pub window_secs: u64,
}

/// Determines what gets rate-limited.
#[derive(Debug, Clone)]
pub enum RateLimitExtractor {
    /// The remote IP address (the connection's peer; failing that the first
    /// `x-forwarded-for` entry, then `x-real-ip`, then `"unknown"`).
    Ip,
    /// An arbitrary header (case-insensitive name).
    Header(String),
}

impl Default for RateLimitExtractor {
    fn default() -> (r: Self)
        ensures
            r is Ip,
    {
        RateLimitExtractor::Ip
    }
}

/// What the key extraction reads from a request.
#[derive(Debug, Clone)]
pub struct RateLimitRequest {
    /// The peer IP address of the connection, in its textual form.
    pub peer_ip: Option<String>,
    /// The raw `x-forwarded-for` header value.
    pub forwarded_for: Option<Vec<u8>>,
    /// The raw `x-real-ip` header value.
    pub real_ip: Option<Vec<u8>>,
    /// The raw value of the header named by a [`RateLimitExtractor::Header`]
    /// extractor.
    pub named_header: Option<Vec<u8>>,
}

/// Whether every byte of a header value is visible ASCII.
pub open spec fn all_visible(b: Seq<u8>) -> bool {
    forall|i: int| 0 <= i < b.len() ==> visible_ascii(#[trigger] b[i])
}

/// The characters of a visible-ASCII header value.
pub open spec fn ascii_chars(b: Seq<u8>) -> Seq<char> {
    b.map_values(|x: u8| x as char)
}

/// The text before the first comma (the whole text when there is none).
pub open spec fn before_comma(s: Seq<char>) -> Seq<char>
    decreases s.len(),
{
    if s.len() == 0 {
        s
    } else if s[0] == ',' {
        Seq::empty()
    } else {
        seq![s[0]] + before_comma(s.drop_first())
    }
}

/// The key a request is limited under.
pub open spec fn rate_limit_key(ext: RateLimitExtractor, req: RateLimitRequest) -> Seq<char> {
    match ext {
        RateLimitExtractor::Ip => match req.peer_ip {
            Some(ip) => ip@,
            None => match (opt_bytes(req.forwarded_for), opt_bytes(req.real_ip)) {
                (Some(f), _) if all_visible(f) => trim_ascii(before_comma(ascii_chars(f))),
                (_, Some(r)) if all_visible(r) => ascii_chars(r),
                _ => "unknown"@,
            },
        },
        RateLimitExtractor::Header(_) => match opt_bytes(req.named_header) {
            Some(h) if all_visible(h) => ascii_chars(h),
            _ => "unknown"@,
        },
    }
}

/// The text of a raw header value, when every byte is visible ASCII.
fn visible_text(raw: &Vec<u8>) -> (r: Option<Vec<char>>)
    ensures
        r is Some <==> all_visible(raw@),
        r matches Some(c) ==> c@ == ascii_chars(raw@),
{
    match header_value_text(raw.as_slice()) {
        Some(t) => {
            let c = chars_of(t.as_str());
            proof {
                assert(c@ =~= ascii_chars(raw@));
            }
            Some(c)
        },
        None => None,
    }
}

/// The characters before the first comma.
fn take_before_comma(s: &Vec<char>) -> (r: Vec<char>)
    ensures
        r@ == before_comma(s@),
{
    let mut i: usize = 0;
    while i < s.len() && s[i] != ','
        invariant
            i <= s@.len(),
            forall|j: int| 0 <= j < i ==> s@[j] != ',',
        decreases s@.len() - i,
    {
        i = i + 1;
    }
    let mut r: Vec<char> = Vec::new();
    let mut k: usize = 0;
    while k < i
        invariant
            k <= i <= s@.len(),
            r@ == s@.subrange(0, k as int),
        decreases i - k,
    {
        r.push(s[k]);
        k = k + 1;
        proof {
            assert(r@ =~= s@.subrange(0, k as int));
        }
    }
    proof {
        lemma_before_comma(s@, i as int);
    }
    r
}

/// `before_comma` is the prefix up to the first comma.
proof fn lemma_before_comma(s: Seq<char>, i: int)
    requires
        0 <= i <= s.len(),
        forall|j: int| 0 <= j < i ==> s[j] != ',',
        i < s.len() ==> s[i] == ',',
    ensures
        before_comma(s) == s.subrange(0, i),
    decreases s.len(),
{
    if s.len() == 0 {
        assert(s.subrange(0, i) =~= s);
    } else if i == 0 {
        assert(s.subrange(0, 0) =~= Seq::<char>::empty());
    } else {
        let t = s.drop_first();
        assert forall|j: int| 0 <= j < i - 1 implies t[j] != ',' by {
            assert(t[j] == s[j + 1]);
        }
        if i - 1 < t.len() {
            assert(t[i - 1] == s[i]);
        }
        lemma_before_comma(t, i - 1);
        assert(seq![s[0]] + t.subrange(0, i - 1) =~= s.subrange(0, i));
    }
}

impl RateLimitExtractor {
    /// The key a request is limited under.
    pub fn extract(&self, req: &RateLimitRequest) -> (r: String)
        ensures
            r@ == rate_limit_key(*self, *req),
    {
        match self {
            RateLimitExtractor::Ip => {
                if let Some(ip) = &req.peer_ip {
                    return String::from_str(ip.as_str());
                }
                if let Some(f) = &req.forwarded_for {
                    if let Some(c) = visible_text(f) {
                        let first = take_before_comma(&c);
                        let t = trim_ascii_chars(first.as_slice());
                        return string_from_chars(t.as_slice());
                    }
                }
                if let Some(x) = &req.real_ip {
                    if let Some(c) = visible_text(x) {
                        return string_from_chars(c.as_slice());
                    }
                }
                String::from_str("unknown")
            },
            RateLimitExtractor::Header(_) => {
                if let Some(h) = &req.named_header {
                    if let Some(c) = visible_text(h) {
                        return string_from_chars(c.as_slice());
                    }
                }
                String::from_str("unknown")
            },
        }
    }
}

// ── Quota ────────────────────────────────────────────────────────────────────

/// The replenishment period of a quota, in nanoseconds: the window divided
/// evenly among the allowed requests (rounded down to the nanosecond).
pub open spec fn quota_period_nanos(limit: u32, window_secs: u64) -> int {
    (window_secs * 1_000_000_000) / (limit as int)
}

/// Whether a backend describes a quota that `governor` accepts: a non-zero
/// limit and a non-zero replenishment period.
pub open spec fn quota_is_valid(b: RateLimitBackend) -> bool {
    b.limit > 0 && quota_period_nanos(b.limit, b.window_secs) > 0
}

/// The replenishment period of a backend's quota, as whole seconds and
/// the nanoseconds beyond them (the window divided by the limit, as
/// `Duration / u32` computes it).
pub fn quota_period(b: &RateLimitBackend) -> (r: (u64, u32))
    requires
        b.limit > 0,
    ensures
        r.1 < 1_000_000_000,
        r.0 * 1_000_000_000 + r.1 == quota_period_nanos(b.limit, b.window_secs),
{
    let limit = b.limit as u64;
    let secs = b.window_secs / limit;
    let carry = b.window_secs % limit;
    let carry_nanos: u128 = carry as u128 * 1_000_000_000u128;
    let nanos: u128 = carry_nanos / limit as u128;
    proof {
        let w = b.window_secs as int;
        let l = limit as int;
        assert(carry < limit);
        assert(carry_nanos < l * 1_000_000_000) by (nonlinear_arith)
            requires
                carry_nanos == carry * 1_000_000_000,
                carry < l,
        ;
        assert(nanos as int == (carry_nanos as int) / l);
        assert(nanos < 1_000_000_000) by (nonlinear_arith)
            requires
                nanos == (carry_nanos as int) / l,
                carry_nanos < l * 1_000_000_000,
                l > 0,
        ;
        assert(w == secs * l + carry) by (nonlinear_arith)
            requires
                secs == w / l,
                carry == w % l,
                l > 0,
        ;
        assert(w * 1_000_000_000 == secs * 1_000_000_000 * l + carry_nanos) by (nonlinear_arith)
            requires
                w == secs * l + carry,
                carry_nanos == carry * 1_000_000_000,
        ;
        assert((secs * 1_000_000_000 * l + carry_nanos) / l == secs * 1_000_000_000 + (
        carry_nanos as int) / l) by (nonlinear_arith)
            requires
                l > 0,
                carry_nanos >= 0,
                secs >= 0,
        ;
    }
    (secs, nanos as u32)
}

// ── Rejection ────────────────────────────────────────────────────────────────

/// Rate-limit state reported with a rejection: the limit, what remains, when
/// the window resets (Unix seconds), and how long to wait.
#[derive(Debug, Clone, Copy, PartialEq, Eq, Structural)]
pub struct RateLimitInfo {
    /// Maximum requests per window.
    pub limit: u64,
    /// Requests remaining in the current window.
    pub remaining: u64,
    /// Unix timestamp (seconds) at which the window resets.
    pub reset: u64,
    /// Seconds to wait before retrying.
    pub retry_after: Option<u64>,
}

/// The seconds a rejected client is told to wait: the limiter's wait, at
/// least one second.
pub open spec fn retry_after_secs(wait_secs: u64) -> u64 {
    if wait_secs < 1 {
        1
    } else {
        wait_secs
    }
}

/// The rate-limit state of a rejection: nothing remains, the window resets
/// after the wait (counted from now, or from zero when the clock reads
/// before the epoch).
pub open spec fn rejection_info(limit: u32, wait_secs: u64, now_unix_secs: Option<u64>) -> RateLimitInfo {
    let retry = retry_after_secs(wait_secs);
    RateLimitInfo {
        limit: limit as u64,
        remaining: 0,
        reset: match now_unix_secs {
            Some(now) => (now + retry) as u64,
            None => retry,
        },
        retry_after: Some(retry),
    }
}

/// The state reported to a client whose key is exhausted.
pub fn too_many_requests_info(limit: u32, wait_secs: u64, now_unix_secs: Option<u64>) -> (r:
    RateLimitInfo)
    requires
        now_unix_secs matches Some(now) ==> now + retry_after_secs(wait_secs) <= u64::MAX,
    ensures
        r == rejection_info(limit, wait_secs, now_unix_secs),
{
    let retry = if wait_secs < 1 {
        1
    } else {
        wait_secs
    };
    let reset = match now_unix_secs {
        Some(now) => now + retry,
        None => retry,
    };
    RateLimitInfo { limit: limit as u64, remaining: 0, reset, retry_after: Some(retry) }
}

/// The title of a rate-limit rejection.
pub open spec fn rejection_title() -> Seq<char> {
    "Too Many Requests"@
}

/// The detail of a rate-limit rejection.
pub open spec fn rejection_detail() -> Seq<char> {
    "Rate limit exceeded. Retry after the indicated number of seconds."@
}

/// The problem body of a rejection, as its fields: type, title, status and
/// detail (the state goes alongside).
pub fn rejection_fields() -> (r: (String, String, u16, String))
    ensures
        r.0@ == "urn:api-bones:error:rate-limited"@,
        r.1@ == rejection_title(),
        r.2 == 429,
        r.3@ == rejection_detail(),
{
    (
        String::from_str("urn:api-bones:error:rate-limited"),
        String::from_str("Too Many Requests"),
        429,
        String::from_str("Rate limit exceeded. Retry after the indicated number of seconds."),
    )
}

// ── Limiter ──────────────────────────────────────────────────────────────────

/// A keyed GCRA limiter: `governor::RateLimiter` over string keys, with the
/// default keyed state store and clock. Its per-key state changes with the
/// clock, so only the quota it was built with and the keys its state store
/// holds are named.
#[verifier::external_body]
pub struct KeyedLimiter {
    inner: governor::RateLimiter<
        String,
        governor::state::keyed::DefaultKeyedStateStore<String>,
        governor::clock::DefaultClock,
    >,
}

/// The quota a limiter was built with: burst size, and replenishment period
/// as whole seconds and extra nanoseconds.
pub uninterp spec fn limiter_quota(l: KeyedLimiter) -> (u32, u64, u32);

/// The keys the limiter's keyed state store holds an entry for.
pub uninterp spec fn limiter_keys(l: KeyedLimiter) -> Set<Seq<char>>;

/// Build a keyed limiter (`governor::Quota::with_period`, `allow_burst`,
/// `governor::RateLimiter::keyed`). The quota is non-zero on both counts, so
/// neither `unwrap` can fail; the limiter records the quota it was given,
/// and its state store starts empty.
#[verifier::external_body]
fn new_keyed_limiter(burst: u32, period_secs: u64, period_nanos: u32) -> (r: KeyedLimiter)
    requires
        burst > 0,
        period_nanos < 1_000_000_000,
        period_secs > 0 || period_nanos > 0,
    ensures
        limiter_quota(r) == (burst, period_secs, period_nanos),
        limiter_keys(r) == Set::<Seq<char>>::empty(),
{
    let period = std::time::Duration::new(period_secs, period_nanos);
    let quota = governor::Quota::with_period(period).unwrap().allow_burst(
        std::num::NonZeroU32::new(burst).unwrap(),
    );
    KeyedLimiter { inner: governor::RateLimiter::keyed(quota) }
}

/// Let one request under `key` through the limiter
/// (`governor::RateLimiter::check_key`): `None` when it conforms, else the
/// whole seconds until it would (`NotUntil::wait_time_from` the
/// limiter's clock's now). The state store then holds an entry for the key
/// (`measure_and_replace` makes one when it is missing), and the quota is
/// unchanged. A refused cell conforms within one replenishment period
/// (`Gcra::test_and_update`: an allowed cell sets the key's theoretical
/// arrival time to at most its own time plus `tau + t`, and a cell is
/// refused only until that time less `tau`), so the wait is at most the
/// period's whole seconds. A key with no entry yet gets a fresh state with
/// no stored arrival time, which `test_and_update` takes as the current
/// time, so its first request always conforms; `&mut` rules out another
/// caller in between. Otherwise which of the two outcomes comes back
/// depends on earlier calls and on the clock, and is not stated.
#[verifier::external_body]
fn limiter_check(l: &mut KeyedLimiter, key: &str) -> (r: Option<u64>)
    ensures
        limiter_keys(*final(l)) == limiter_keys(*old(l)).insert(key@),
        limiter_quota(*final(l)) == limiter_quota(*old(l)),
        r matches Some(w) ==> w <= limiter_quota(*old(l)).1,
        !limiter_keys(*old(l)).contains(key@) ==> r is None,
{
    match l.inner.check_key(&key.to_string()) {
        Ok(()) => None,
        Err(not_until) => Some(
            not_until.wait_time_from(governor::clock::Clock::now(l.inner.clock())).as_secs(),
        ),
    }
}

/// Build the limiter of a backend: a burst of `limit` requests,
/// replenished one every `window_secs / limit` seconds.
pub fn build_limiter(b: &RateLimitBackend) -> (r: KeyedLimiter)
    requires
        quota_is_valid(*b),
    ensures
        ({
            let q = limiter_quota(r);
            q.0 == b.limit && q.1 * 1_000_000_000 + q.2 == quota_period_nanos(
                b.limit,
                b.window_secs,
            ) && q.2 < 1_000_000_000
        }),
        limiter_keys(r) == Set::<Seq<char>>::empty(),
{
    let (secs, nanos) = quota_period(b);
    new_keyed_limiter(b.limit, secs, nanos)
}

/// The in-memory rate-limit layer: a limiter, the key extractor and the
/// configured limit.
pub struct RateLimitLayer {
    /// The limiter holding the per-key state.
    pub limiter: KeyedLimiter,
    /// How requests are keyed.
    pub extractor: RateLimitExtractor,
    /// Max requests per window.
    pub limit: u32,
}

impl RateLimitLayer {
    /// A layer for the given limit, window and extractor.
    pub fn new_memory(limit: u32, window_secs: u64, extractor: RateLimitExtractor) -> (r: Self)
        requires
            quota_is_valid(RateLimitBackend { limit, window_secs }),
        ensures
            r.limit == limit,
            r.extractor == extractor,
            limiter_quota(r.limiter).0 == limit,
            limiter_quota(r.limiter).1 * 1_000_000_000 + limiter_quota(r.limiter).2
                == quota_period_nanos(limit, window_secs),
            limiter_keys(r.limiter) == Set::<Seq<char>>::empty(),
    {
        let b = RateLimitBackend { limit, window_secs };
        RateLimitLayer { limiter: build_limiter(&b), extractor, limit }
    }

    /// Check a request against the limiter under its key: `None` when it
    /// may pass, else the seconds the limiter says to wait, at most the
    /// whole seconds of one replenishment period. The limiter is consulted
    /// under the request's key, which its state then holds; the first
    /// request under a key always passes. Otherwise which of the two
    /// outcomes comes back depends on the requests seen before and on the
    /// clock.
    pub fn check_request(&mut self, req: &RateLimitRequest) -> (r: Option<u64>)
        ensures
            limiter_keys(final(self).limiter) == limiter_keys(old(self).limiter).insert(
                rate_limit_key(old(self).extractor, *req),
            ),
            limiter_quota(final(self).limiter) == limiter_quota(old(self).limiter),
            final(self).extractor == old(self).extractor,
            final(self).limit == old(self).limit,
            r matches Some(w) ==> w <= limiter_quota(old(self).limiter).1,
            !limiter_keys(old(self).limiter).contains(rate_limit_key(old(self).extractor, *req))
                ==> r is None,
    {
        let key = self.extractor.extract(req);
        limiter_check(&mut self.limiter, key.as_str())
    }
}

/// What the rate-limit layer answers for a checked request: nothing when it
/// passes, else the state of the rejection.
pub fn rate_limit_verdict(wait_secs: Option<u64>, limit: u32, now_unix_secs: Option<u64>) -> (r:
    Option<RateLimitInfo>)
    requires
        wait_secs matches Some(w) ==> (now_unix_secs matches Some(now) ==> now + retry_after_secs(w)
            <= u64::MAX),
    ensures
        r == (match wait_secs {
            None => None,
            Some(w) => Some(rejection_info(limit, w, now_unix_secs)),
        }),
{
    match wait_secs {
        None => None,
        Some(w) => Some(too_many_requests_info(limit, w, now_unix_secs)),
    }
}

} // verus!
