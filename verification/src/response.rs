//! Handler responses: the success shapes (`200`, `201` with `Location`,
//! `200` with `ETag`), the page window of a fully loaded list, and the
//! Problem+JSON enrichment of bare error responses.

use vstd::prelude::*;
use crate::etag::{etag_text, ETag};
use crate::problem::{ApiError, ErrorCode, HandlerError};
use crate::text::{chars_of, concat2, opt_text, string_from_chars};

verus! {

// ── Success responses ────────────────────────────────────────────────────────

/// A successful handler response: status, headers and the serialised
/// `ApiResponse` envelope.
#[derive(Debug, Clone)]
pub struct RfcOk {
    /// The HTTP status.
    pub status: u16,
    /// Extra headers, by lowercase name.
    pub headers: Vec<(String, String)>,
    /// The serialised body.
    pub body: Vec<u8>,
}

/// Whether a text is a valid header value (`http::HeaderValue::from_str`):
/// no control character other than tab, and no DEL.
pub open spec fn valid_header_text(s: Seq<char>) -> bool {
    forall|i: int|
        0 <= i < s.len() ==> (#[trigger] s[i] == '\t' || (s[i] as u32 >= 32 && s[i] as u32
            != 127))
}

/// The headers of a response, as texts.
pub open spec fn headers_view(h: Seq<(String, String)>) -> Seq<(Seq<char>, Seq<char>)> {
    h.map_values(|e: (String, String)| (e.0@, e.1@))
}

/// A `200 OK` response with the given body.
pub fn ok(body: Vec<u8>) -> (r: Result<RfcOk, HandlerError>)
    ensures
        r matches Ok(o) && o.status == 200 && o.headers@.len() == 0 && o.body@ == body@,
{
    Ok(RfcOk { status: 200, headers: Vec::new(), body })
}

/// A `200 OK` response with a page of items as its body.
pub fn listed(body: Vec<u8>) -> (r: Result<RfcOk, HandlerError>)
    ensures
        r matches Ok(o) && o.status == 200 && o.headers@.len() == 0 && o.body@ == body@,
{
    Ok(RfcOk { status: 200, headers: Vec::new(), body })
}

/// A `201 Created` response with the given body.
pub fn created(body: Vec<u8>) -> (r: Result<RfcOk, HandlerError>)
    ensures
        r matches Ok(o) && o.status == 201 && o.headers@.len() == 0 && o.body@ == body@,
{
    Ok(RfcOk { status: 201, headers: Vec::new(), body })
}

/// A `201 Created` response with a `Location` header.
pub fn created_at(location: &str, body: Vec<u8>) -> (r: Result<RfcOk, HandlerError>)
    requires
        valid_header_text(location@),
    ensures
        r matches Ok(o) && o.status == 201 && headers_view(o.headers@) == seq![
            ("location"@, location@),
        ] && o.body@ == body@,
{
    let headers = vec![(String::from_str("location"), String::from_str(location))];
    proof {
        assert(headers_view(headers@) =~= seq![("location"@, location@)]);
    }
    Ok(RfcOk { status: 201, headers, body })
}

/// A text without its trailing `/` characters.
pub open spec fn trim_trailing_slashes(s: Seq<char>) -> Seq<char>
    decreases s.len(),
{
    if s.len() > 0 && s.last() == '/' {
        trim_trailing_slashes(s.drop_last())
    } else {
        s
    }
}

/// The location of a resource created under a collection path: the path
/// without trailing slashes, `/`, and the resource id.
pub open spec fn location_under(prefix: Seq<char>, id: Seq<char>) -> Seq<char> {
    trim_trailing_slashes(prefix) + "/"@ + id
}

/// Remove trailing slashes.
fn trim_slashes(s: &str) -> (r: String)
    ensures
        r@ == trim_trailing_slashes(s@),
{
    let mut c = chars_of(s);
    let mut n: usize = c.len();
    proof {
        assert(c@.subrange(0, n as int) =~= c@);
    }
    while n > 0 && c[n - 1] == '/'
        invariant
            n <= c@.len(),
            c@ == s@,
            trim_trailing_slashes(c@) == trim_trailing_slashes(c@.subrange(0, n as int)),
        decreases n,
    {
        proof {
            assert(c@.subrange(0, n as int).drop_last() =~= c@.subrange(0, n - 1));
        }
        n = n - 1;
    }
    let ghost full = c@;
    c.truncate(n);
    proof {
        assert(c@ =~= full.subrange(0, n as int));
    }
    string_from_chars(c.as_slice())
}

/// The location of a resource created under a collection path.
pub fn compose_location(prefix: &str, id: &str) -> (r: String)
    ensures
        r@ == location_under(prefix@, id@),
{
    let head = trim_slashes(prefix);
    crate::text::concat3(head.as_str(), "/", id)
}

/// A `201 Created` response whose `Location` is the collection path (without
/// trailing slashes), `/`, and the new resource's id.
pub fn created_under(prefix: &str, id: &str, body: Vec<u8>) -> (r: Result<RfcOk, HandlerError>)
    requires
        valid_header_text(location_under(prefix@, id@)),
    ensures
        r matches Ok(o) && o.status == 201 && headers_view(o.headers@) == seq![
            ("location"@, location_under(prefix@, id@)),
        ] && o.body@ == body@,
{
    let location = compose_location(prefix, id);
    created_at(location.as_str(), body)
}

/// A `200 OK` response with an `ETag` header.
pub fn etagged(etag: &ETag, body: Vec<u8>) -> (r: Result<RfcOk, HandlerError>)
    requires
        valid_header_text(etag_text(etag@)),
    ensures
        r matches Ok(o) && o.status == 200 && headers_view(o.headers@) == seq![
            ("etag"@, etag_text(etag@)),
        ] && o.body@ == body@,
{
    let headers = vec![(String::from_str("etag"), etag.to_header_text())];
    proof {
        assert(headers_view(headers@) =~= seq![("etag"@, etag_text(etag@))]);
    }
    Ok(RfcOk { status: 200, headers, body })
}

// ── Page window ──────────────────────────────────────────────────────────────

/// The default page size.
pub const DEFAULT_PAGE_LIMIT: u64 = 20;

/// The clamp of an offset or limit to the platform's `usize`.
pub open spec fn to_usize_saturating(x: u64) -> int {
    if x <= usize::MAX {
        x as int
    } else {
        usize::MAX as int
    }
}

/// The start of the page window.
pub open spec fn window_start(len: int, offset: Option<u64>) -> int {
    let o = to_usize_saturating(match offset {
        Some(o) => o,
        None => 0,
    });
    if o < len {
        o
    } else {
        len
    }
}

/// The end of the page window.
pub open spec fn window_end(len: int, offset: Option<u64>, limit: Option<u64>) -> int {
    let s = window_start(len, offset);
    let l = to_usize_saturating(match limit {
        Some(l) => l,
        None => DEFAULT_PAGE_LIMIT,
    });
    if s + l < len {
        s + l
    } else {
        len
    }
}

/// The page window of a list of `len` items starts at the offset (0 when
/// absent), or at the end of the list when the offset is past it, and holds
/// `limit` items (20 when absent), or fewer when the list ends first.
pub proof fn lemma_page_window(len: int, offset: Option<u64>, limit: Option<u64>)
    requires
        0 <= len <= usize::MAX,
    ensures
        ({
            let o: int = match offset {
                Some(o) => o as int,
                None => 0,
            };
            let l: int = match limit {
                Some(l) => l as int,
                None => 20,
            };
            let start = if o < len {
                o
            } else {
                len
            };
            &&& window_start(len, offset) == start
            &&& window_end(len, offset, limit) - window_start(len, offset) == if l < len - start {
                l
            } else {
                len - start
            }
        }),
{
}

/// Paginate a fully loaded list: skip `offset` items (default 0), take
/// `limit` (default 20), and report the total count.
pub fn listed_page<T>(items: Vec<T>, offset: Option<u64>, limit: Option<u64>) -> (r: (Vec<T>, u64))
    requires
        items@.len() <= u64::MAX,
    ensures
        r.0@ == items@.subrange(
            window_start(items@.len() as int, offset),
            window_end(items@.len() as int, offset, limit),
        ),
        r.1 == items@.len(),
        ({
            let len = items@.len() as int;
            let o: int = match offset {
                Some(o) => o as int,
                None => 0,
            };
            let l: int = match limit {
                Some(l) => l as int,
                None => 20,
            };
            let start = if o < len {
                o
            } else {
                len
            };
            let count = if l < len - start {
                l
            } else {
                len - start
            };
            &&& r.0@.len() == count
            &&& forall|i: int| 0 <= i < count ==> #[trigger] r.0@[i] == items@[start + i]
        }),
{
    let n0 = items.len();
    proof {
        lemma_page_window(n0 as int, offset, limit);
    }
    let total = items.len() as u64;
    let off: u64 = match offset {
        Some(o) => o,
        None => 0,
    };
    let lim: u64 = match limit {
        Some(l) => l,
        None => DEFAULT_PAGE_LIMIT,
    };
    let skip: usize = if off <= usize::MAX as u64 {
        off as usize
    } else {
        usize::MAX
    };
    let take: usize = if lim <= usize::MAX as u64 {
        lim as usize
    } else {
        usize::MAX
    };
    let n = items.len();
    let start: usize = if skip < n {
        skip
    } else {
        n
    };
    let end: usize = if take < n - start {
        start + take
    } else {
        n
    };
    let ghost all = items@;
    let mut rest = items;
    let mut page: Vec<T> = Vec::new();
    let mut i: usize = 0;
    while i < end
        invariant
            start <= end <= n,
            n == all.len(),
            i <= end,
            rest@ == all.subrange(i as int, n as int),
            i <= start ==> page@.len() == 0,
            i > start ==> page@ == all.subrange(start as int, i as int),
        decreases end - i,
    {
        let x = rest.remove(0);
        if i >= start {
            page.push(x);
        }
        i = i + 1;
        proof {
            assert(rest@ =~= all.subrange(i as int, n as int));
            if i > start {
                assert(page@ =~= all.subrange(start as int, i as int));
            }
        }
    }
    proof {
        if end <= start {
            assert(page@ =~= all.subrange(start as int, end as int));
        }
    }
    (page, total)
}

// ── Enriching bare errors ────────────────────────────────────────────────────

/// What `http::StatusCode::canonical_reason` gives for a status code.
pub uninterp spec fn canonical_reason_of(code: u16) -> Option<Seq<char>>;

/// The canonical reason phrase of a status code
/// (`http::StatusCode::canonical_reason`), named by
/// [`canonical_reason_of`]; the table itself is not restated.
#[verifier::external_body]
fn canonical_reason(code: u16) -> (r: Option<String>)
    requires
        100 <= code <= 999,
    ensures
        opt_text(r) == canonical_reason_of(code),
{
    http::StatusCode::from_u16(code).ok().and_then(|s| s.canonical_reason()).map(|t| t.to_string())
}

/// Whether a status is a client or server error.
pub open spec fn is_error_status(status: u16) -> bool {
    400 <= status <= 599
}

/// The problem that replaces a bare error response: authentication for a
/// `401`, permissions for a `403`, else an internal error titled by the
/// status's reason phrase.
pub open spec fn enrichment_problem(e: ApiError, status: u16) -> bool {
    if status == 401 {
        e.spec_new(ErrorCode::Unauthorized, "Authentication required"@)
    } else if status == 403 {
        e.spec_new(ErrorCode::Forbidden, "Insufficient permissions"@)
    } else {
        e.spec_new(
            ErrorCode::InternalServerError,
            match canonical_reason_of(status) {
                Some(t) => t,
                None => "Unexpected error"@,
            },
        )
    }
}

/// Whether a header list (names as the header map yields them: the name
/// on a header's first value only) has a `content-type`.
pub open spec fn has_content_type(h: Seq<(Option<String>, Vec<u8>)>) -> bool {
    exists|i: int| 0 <= i < h.len() && opt_text(#[trigger] h[i].0) == Some("content-type"@)
}

/// The headers carried over to the enriched response: each header's first
/// value, except `content-type` and `content-length`.
pub open spec fn carried_headers(h: Seq<(Option<String>, Vec<u8>)>) -> Seq<(Seq<char>, Seq<u8>)>
    decreases h.len(),
{
    if h.len() == 0 {
        Seq::empty()
    } else {
        let rest = carried_headers(h.drop_last());
        match opt_text(h.last().0) {
            Some(n) => if n == "content-type"@ || n == "content-length"@ {
                rest
            } else {
                rest.push((n, h.last().1@))
            },
            None => rest,
        }
    }
}

/// The view of a list of headers.
pub open spec fn raw_headers_view(h: Seq<(String, Vec<u8>)>) -> Seq<(Seq<char>, Seq<u8>)> {
    h.map_values(|e: (String, Vec<u8>)| (e.0@, e.1@))
}

/// The enrichment of a response: `None` when it is not an error, or
/// already has a body type; else the problem to render and the headers to
/// carry over (the response keeps the status it had).
pub fn enrich_error(status: u16, headers: Vec<(Option<String>, Vec<u8>)>) -> (r: Option<
    (ApiError, Vec<(String, Vec<u8>)>),
>)
    requires
        100 <= status <= 999,
    ensures
        r is None <==> (!is_error_status(status) || has_content_type(headers@)),
        r matches Some(p) ==> enrichment_problem(p.0, status) && raw_headers_view(p.1@)
            == carried_headers(headers@),
{
    if !(400 <= status && status <= 599) {
        return None;
    }
    let ghost h = headers@;
    let mut carried: Vec<(String, Vec<u8>)> = Vec::new();
    let mut has_ct = false;
    let mut rest = headers;
    let mut i: usize = 0;
    let n = rest.len();
    proof {
        assert(h.subrange(0, 0) =~= Seq::<(Option<String>, Vec<u8>)>::empty());
        assert(rest@ =~= h.subrange(0, n as int));
    }
    while i < n
        invariant
            n == h.len(),
            i <= n,
            rest@ == h.subrange(i as int, n as int),
            raw_headers_view(carried@) == carried_headers(h.subrange(0, i as int)),
            has_ct == has_content_type(h.subrange(0, i as int)),
        decreases n - i,
    {
        let ghost before = carried@;
        let (name, value) = rest.remove(0);
        proof {
            assert(h.subrange(0, i + 1).drop_last() =~= h.subrange(0, i as int));
            assert(h.subrange(0, i + 1).last() == h[i as int]);
            assert(h[i as int] == (name, value));
        }
        match name {
            Some(nm) => {
                let is_ct = crate::text::str_eq(nm.as_str(), "content-type");
                let is_cl = crate::text::str_eq(nm.as_str(), "content-length");
                proof {
                    if has_ct || is_ct {
                        if is_ct {
                            assert(opt_text(h.subrange(0, i + 1)[i as int].0) == Some(
                                "content-type"@,
                            ));
                        } else {
                            let k = choose|k: int|
                                0 <= k < i && opt_text(#[trigger] h.subrange(0, i as int)[k].0)
                                    == Some("content-type"@);
                            assert(h.subrange(0, i + 1)[k] == h.subrange(0, i as int)[k]);
                        }
                    }
                    if has_content_type(h.subrange(0, i + 1)) {
                        let k = choose|k: int|
                            0 <= k < i + 1 && opt_text(#[trigger] h.subrange(0, i + 1)[k].0)
                                == Some("content-type"@);
                        if k < i {
                            assert(h.subrange(0, i as int)[k] == h.subrange(0, i + 1)[k]);
                        }
                    }
                }
                has_ct = has_ct || is_ct;
                if !is_ct && !is_cl {
                    carried.push((nm, value));
                    proof {
                        assert(raw_headers_view(carried@) =~= before.map_values(
                            |e: (String, Vec<u8>)| (e.0@, e.1@),
                        ).push((h[i as int].0->Some_0@, h[i as int].1@)));
                    }
                }
            },
            None => {
                proof {
                    if has_content_type(h.subrange(0, i + 1)) {
                        let k = choose|k: int|
                            0 <= k < i + 1 && opt_text(#[trigger] h.subrange(0, i + 1)[k].0)
                                == Some("content-type"@);
                        assert(k < i);
                        assert(h.subrange(0, i as int)[k] == h.subrange(0, i + 1)[k]);
                    }
                    if has_content_type(h.subrange(0, i as int)) {
                        let k = choose|k: int|
                            0 <= k < i && opt_text(#[trigger] h.subrange(0, i as int)[k].0)
                                == Some("content-type"@);
                        assert(h.subrange(0, i + 1)[k] == h.subrange(0, i as int)[k]);
                    }
                }
            },
        }
        i = i + 1;
        proof {
            assert(rest@ =~= h.subrange(i as int, n as int));
        }
    }
    proof {
        assert(h.subrange(0, n as int) =~= h);
    }
    if has_ct {
        return None;
    }
    let problem = if status == 401 {
        ApiError::unauthorized(String::from_str("Authentication required"))
    } else if status == 403 {
        ApiError::forbidden(String::from_str("Insufficient permissions"))
    } else {
        let reason = match canonical_reason(status) {
            Some(t) => t,
            None => String::from_str("Unexpected error"),
        };
        ApiError::new(ErrorCode::InternalServerError, reason)
    };
    Some((problem, carried))
}

} // verus!
