//! Entity tags and conditional-request checks.

use vstd::prelude::*;
use crate::org::{header_value_text, hex_digit, visible_ascii};
use crate::problem::{ApiError, ErrorCode};
use crate::text::{chars_eq, chars_of, string_from_chars};

verus! {

/// An HTTP entity tag: its opaque value and whether it is weak.
#[derive(Debug, Clone)]
pub struct ETag {
    /// The opaque tag value (without quotes).
    pub value: String,
    /// Whether the tag is weak (`W/` prefix).
    pub weak: bool,
}

impl View for ETag {
    type V = (Seq<char>, bool);

    open spec fn view(&self) -> (Seq<char>, bool) {
        (self.value@, self.weak)
    }
}

/// The header text of an entity tag: the quoted value, with a `W/` prefix
/// when the tag is weak.
pub open spec fn etag_text(t: (Seq<char>, bool)) -> Seq<char> {
    if t.1 {
        "W/\""@ + t.0 + "\""@
    } else {
        "\""@ + t.0 + "\""@
    }
}

impl ETag {
    /// A strong tag.
    pub fn strong(value: String) -> (r: ETag)
        ensures
            r@ == (value@, false),
    {
        ETag { value, weak: false }
    }

    /// A weak tag.
    pub fn weak(value: String) -> (r: ETag)
        ensures
            r@ == (value@, true),
    {
        ETag { value, weak: true }
    }

    /// Strong comparison: both tags strong and with equal values.
    pub fn matches(&self, other: &ETag) -> (r: bool)
        ensures
            r == (!self.weak && !other.weak && self.value@ == other.value@),
    {
        !self.weak && !other.weak && crate::text::str_eq(self.value.as_str(), other.value.as_str())
    }

    /// Weak comparison: equal values, whatever the weakness.
    pub fn matches_weak(&self, other: &ETag) -> (r: bool)
        ensures
            r == (self.value@ == other.value@),
    {
        crate::text::str_eq(self.value.as_str(), other.value.as_str())
    }

    /// The header text of this tag (its `Display` form).
    pub fn to_header_text(&self) -> (r: String)
        ensures
            r@ == etag_text(self@),
    {
        if self.weak {
            crate::text::concat3("W/\"", self.value.as_str(), "\"")
        } else {
            crate::text::concat3("\"", self.value.as_str(), "\"")
        }
    }
}

// ── Hexadecimal rendering ────────────────────────────────────────────────────

/// Lowercase hexadecimal digits of a number, without leading zeros (`"0"`
/// for zero).
pub open spec fn hex_text(n: nat) -> Seq<char>
    decreases n,
{
    if n < 16 {
        seq![hex_digit(n as int)]
    } else {
        hex_text(n / 16).push(hex_digit((n % 16) as int))
    }
}

/// The hexadecimal digit of a value below sixteen.
fn hex_char(d: u64) -> (r: char)
    requires
        d < 16,
    ensures
        r == hex_digit(d as int),
{
    if d < 10 {
        ((48 + d) as u8) as char
    } else {
        ((87 + d) as u8) as char
    }
}

/// Append the hexadecimal digits of `n` to `out`.
fn push_hex(n: u64, out: &mut Vec<char>)
    ensures
        final(out)@ == old(out)@ + hex_text(n as nat),
    decreases n,
{
    if n >= 16 {
        push_hex(n / 16, out);
    }
    out.push(hex_char(n % 16));
    proof {
        if n >= 16 {
            assert(hex_text(n as nat) == hex_text((n / 16) as nat).push(hex_digit((n % 16) as int)));
        }
    }
}

/// Lowercase hexadecimal text of a 64-bit value (`format!("{:x}")`).
pub fn hex_string(n: u64) -> (r: String)
    ensures
        r@ == hex_text(n as nat),
{
    let mut v: Vec<char> = Vec::new();
    push_hex(n, &mut v);
    proof {
        assert(v@ =~= hex_text(n as nat));
    }
    string_from_chars(v.as_slice())
}

/// Derive a weak tag from an `updated_at` timestamp given in milliseconds
/// since the Unix epoch: the tag value is the lowercase hexadecimal form of
/// the milliseconds (two's complement for instants before the epoch).
pub fn etag_from_updated_at(updated_at_millis: i64) -> (r: ETag)
    ensures
        r.weak,
        r.value@ == hex_text((updated_at_millis as u64) as nat),
{
    ETag::weak(hex_string(updated_at_millis as u64))
}

/// Two different values have different hexadecimal texts, so tags derived
/// from different instants differ.
pub proof fn lemma_hex_text_injective(a: nat, b: nat)
    requires
        a != b,
    ensures
        hex_text(a) != hex_text(b),
    decreases a + b,
{
    if a < 16 && b < 16 {
        assert(hex_text(a)[0] != hex_text(b)[0]);
    } else if a < 16 {
        assert(hex_text(b).len() >= 2) by {
            lemma_hex_text_len(b / 16);
        }
    } else if b < 16 {
        assert(hex_text(a).len() >= 2) by {
            lemma_hex_text_len(a / 16);
        }
    } else {
        let ha = hex_text(a);
        let hb = hex_text(b);
        if ha == hb {
            assert(ha.last() == hb.last());
            assert(hex_digit((a % 16) as int) == hex_digit((b % 16) as int));
            assert(a % 16 == b % 16);
            assert(ha.drop_last() == hex_text(a / 16));
            assert(hb.drop_last() == hex_text(b / 16));
            lemma_hex_text_injective(a / 16, b / 16);
        }
    }
}

/// Every hexadecimal text has at least one digit.
pub proof fn lemma_hex_text_len(n: nat)
    ensures
        hex_text(n).len() >= 1,
    decreases n,
{
    if n >= 16 {
        lemma_hex_text_len(n / 16);
    }
}

// ── If-Match ─────────────────────────────────────────────────────────────────

/// Why an entity-tag list failed to parse.
#[derive(Debug, Clone, Copy, PartialEq, Eq, Structural)]
pub enum ParseETagError {
    /// The input is empty.
    Empty,
    /// A tag is not enclosed in double quotes.
    Unquoted,
    /// A tag is malformed.
    Malformed,
}

impl ParseETagError {
    /// The message of a parse error.
    pub open spec fn spec_message(self) -> Seq<char> {
        match self {
            ParseETagError::Empty => "ETag is empty"@,
            ParseETagError::Unquoted => "ETag must be enclosed in double quotes"@,
            ParseETagError::Malformed => "ETag is malformed"@,
        }
    }

    /// The message of this parse error (its `Display` form).
    pub fn message(&self) -> (r: String)
        ensures
            r@ == self.spec_message(),
    {
        match self {
            ParseETagError::Empty => String::from_str("ETag is empty"),
            ParseETagError::Unquoted => String::from_str("ETag must be enclosed in double quotes"),
            ParseETagError::Malformed => String::from_str("ETag is malformed"),
        }
    }
}

/// Whether a text holds an even number of `"` characters (a position after
/// it is outside any quoted section).
pub open spec fn quotes_even(s: Seq<char>) -> bool
    decreases s.len(),
{
    if s.len() == 0 {
        true
    } else if s.last() == '"' {
        !quotes_even(s.drop_last())
    } else {
        quotes_even(s.drop_last())
    }
}

/// The entries of a tag list: the pieces between the commas that stand
/// outside quoted sections.
pub open spec fn list_pieces(s: Seq<char>) -> Seq<Seq<char>>
    decreases s.len(),
{
    if s.len() == 0 {
        seq![Seq::empty()]
    } else {
        let rest = list_pieces(s.drop_last());
        if s.last() == ',' && quotes_even(s.drop_last()) {
            rest.push(Seq::empty())
        } else {
            rest.update(rest.len() - 1, rest.last().push(s.last()))
        }
    }
}

/// One entity tag from its text (`ETag::from_str`): trimmed, empty is
/// `Empty`; an optional `W/` marks it weak; then, after leading
/// whitespace, it must start with `"` (else `Unquoted`), end with another
/// `"` and hold no `"` between them (else `Malformed`).
pub open spec fn etag_parse_one(s: Seq<char>) -> Result<(Seq<char>, bool), ParseETagError> {
    let t = trim_ascii(s);
    if t.len() == 0 {
        Err(ParseETagError::Empty)
    } else {
        let weak = t.len() >= 2 && t[0] == 'W' && t[1] == '/';
        let rest0 = if weak {
            t.subrange(2, t.len() as int)
        } else {
            t
        };
        let rest = rest0.subrange(leading_ws(rest0) as int, rest0.len() as int);
        if !(rest.len() > 0 && rest[0] == '"') {
            Err(ParseETagError::Unquoted)
        } else if rest.len() < 2 || rest.last() != '"' {
            Err(ParseETagError::Malformed)
        } else {
            let v = rest.subrange(1, rest.len() - 1);
            if v.contains('"') {
                Err(ParseETagError::Malformed)
            } else {
                Ok((v, weak))
            }
        }
    }
}

/// The tags of some entries, left to right: blank entries are skipped and
/// the first entry that does not parse gives the error.
pub open spec fn etag_parse_pieces(ps: Seq<Seq<char>>) -> Result<
    Seq<(Seq<char>, bool)>,
    ParseETagError,
>
    decreases ps.len(),
{
    if ps.len() == 0 {
        Ok(Seq::empty())
    } else {
        match etag_parse_pieces(ps.drop_last()) {
            Err(e) => Err(e),
            Ok(v) => if trim_ascii(ps.last()).len() == 0 {
                Ok(v)
            } else {
                match etag_parse_one(ps.last()) {
                    Ok(t) => Ok(v.push(t)),
                    Err(e) => Err(e),
                }
            },
        }
    }
}

/// What `api_bones::etag::ETag::parse_list` gives for an ASCII header
/// text: the tags of its entries, `Empty` when there are none, or the first
/// entry's error.
pub open spec fn etag_list_parse(s: Seq<char>) -> Result<Seq<(Seq<char>, bool)>, ParseETagError> {
    match etag_parse_pieces(list_pieces(s)) {
        Ok(v) => if v.len() == 0 {
            Err(ParseETagError::Empty)
        } else {
            Ok(v)
        },
        Err(e) => Err(e),
    }
}

/// Whether every character of a text is ASCII.
pub open spec fn ascii_chars(s: Seq<char>) -> bool {
    forall|i: int| 0 <= i < s.len() ==> (#[trigger] s[i] as u32) < 128
}

/// Parse a comma-separated entity-tag list
/// (`api_bones::etag::ETag::parse_list`: split on commas outside quotes,
/// skip blank entries, parse each with `ETag::from_str`, `Empty` when none
/// is left). On ASCII text `str::trim` and `trim_start` remove exactly the
/// ASCII whitespace, so the result is [`etag_list_parse`].
#[verifier::external_body]
pub(crate) fn parse_etag_list(s: &str) -> (r: Result<Vec<ETag>, ParseETagError>)
    requires
        ascii_chars(s@),
    ensures
        match r {
            Ok(v) => etag_list_parse(s@) == Ok::<Seq<(Seq<char>, bool)>, ParseETagError>(
                v@.map_values(|t: ETag| t@),
            ),
            Err(e) => etag_list_parse(s@) == Err::<Seq<(Seq<char>, bool)>, ParseETagError>(e),
        },
{
    match api_bones::etag::ETag::parse_list(s) {
        Ok(v) => Ok(v.into_iter().map(|t| ETag { value: t.value, weak: t.weak }).collect()),
        Err(api_bones::etag::ParseETagError::Empty) => Err(ParseETagError::Empty),
        Err(api_bones::etag::ParseETagError::Unquoted) => Err(ParseETagError::Unquoted),
        Err(api_bones::etag::ParseETagError::Malformed) => Err(ParseETagError::Malformed),
    }
}

/// Whitespace characters that `str::trim` removes from ASCII text.
pub open spec fn is_ascii_ws(c: char) -> bool {
    c == ' ' || c == '\t' || c == '\n' || c == '\r' || c == '\x0B' || c == '\x0C'
}

/// Number of leading whitespace characters.
pub open spec fn leading_ws(s: Seq<char>) -> nat
    decreases s.len(),
{
    if s.len() > 0 && is_ascii_ws(s[0]) {
        1 + leading_ws(s.drop_first())
    } else {
        0
    }
}

/// Number of trailing whitespace characters.
pub open spec fn trailing_ws(s: Seq<char>) -> nat
    decreases s.len(),
{
    if s.len() > 0 && is_ascii_ws(s.last()) {
        1 + trailing_ws(s.drop_last())
    } else {
        0
    }
}

/// ASCII text with leading and trailing whitespace removed.
pub open spec fn trim_ascii(s: Seq<char>) -> Seq<char> {
    let a = leading_ws(s);
    let t = s.subrange(a as int, s.len() as int);
    t.subrange(0, t.len() - trailing_ws(t))
}

/// Trimming keeps only characters of the text.
proof fn lemma_trim_ascii_chars(s: Seq<char>)
    requires
        ascii_chars(s),
    ensures
        ascii_chars(trim_ascii(s)),
{
    lemma_leading_ws_bound(s);
    let a = leading_ws(s);
    let t = s.subrange(a as int, s.len() as int);
    lemma_trailing_ws_bound(t);
    let r = trim_ascii(s);
    assert forall|i: int| 0 <= i < r.len() implies (#[trigger] r[i] as u32) < 128 by {
        assert(r[i] == t[i]);
        assert(t[i] == s[a + i]);
    }
}

proof fn lemma_leading_ws_bound(s: Seq<char>)
    ensures
        leading_ws(s) <= s.len(),
        forall|i: int| 0 <= i < leading_ws(s) ==> is_ascii_ws(#[trigger] s[i]),
        leading_ws(s) < s.len() ==> !is_ascii_ws(s[leading_ws(s) as int]),
    decreases s.len(),
{
    if s.len() > 0 && is_ascii_ws(s[0]) {
        lemma_leading_ws_bound(s.drop_first());
        assert forall|i: int| 0 <= i < leading_ws(s) implies is_ascii_ws(#[trigger] s[i]) by {
            if i > 0 {
                assert(s[i] == s.drop_first()[i - 1]);
            }
        }
    }
}

proof fn lemma_trailing_ws_bound(s: Seq<char>)
    ensures
        trailing_ws(s) <= s.len(),
        forall|i: int| s.len() - trailing_ws(s) <= i < s.len() ==> is_ascii_ws(#[trigger] s[i]),
        trailing_ws(s) < s.len() ==> !is_ascii_ws(s[s.len() - 1 - trailing_ws(s)]),
    decreases s.len(),
{
    if s.len() > 0 && is_ascii_ws(s.last()) {
        lemma_trailing_ws_bound(s.drop_last());
        assert forall|i: int| s.len() - trailing_ws(s) <= i < s.len() implies is_ascii_ws(
            #[trigger] s[i],
        ) by {
            if i < s.len() - 1 {
                assert(s[i] == s.drop_last()[i]);
            }
        }
    }
}

proof fn lemma_leading_ws_exact(s: Seq<char>, k: nat)
    requires
        k <= s.len(),
        forall|i: int| 0 <= i < k ==> is_ascii_ws(#[trigger] s[i]),
        k < s.len() ==> !is_ascii_ws(s[k as int]),
    ensures
        leading_ws(s) == k,
    decreases s.len(),
{
    if k > 0 {
        assert(is_ascii_ws(s[0]));
        lemma_leading_ws_exact(s.drop_first(), (k - 1) as nat);
    }
}

proof fn lemma_trailing_ws_exact(s: Seq<char>, k: nat)
    requires
        k <= s.len(),
        forall|i: int| s.len() - k <= i < s.len() ==> is_ascii_ws(#[trigger] s[i]),
        k < s.len() ==> !is_ascii_ws(s[s.len() - 1 - k]),
    ensures
        trailing_ws(s) == k,
    decreases s.len(),
{
    if k > 0 {
        assert(is_ascii_ws(s[s.len() - 1]));
        let d = s.drop_last();
        assert forall|i: int| d.len() - (k - 1) <= i < d.len() implies is_ascii_ws(#[trigger] d[i]) by {
            assert(d[i] == s[i]);
        }
        if k - 1 < d.len() {
            assert(d[d.len() - 1 - (k - 1)] == s[s.len() - 1 - k]);
        }
        lemma_trailing_ws_exact(d, (k - 1) as nat);
    }
}

/// Whether a character is ASCII whitespace.
fn ascii_ws(c: char) -> (r: bool)
    ensures
        r == is_ascii_ws(c),
{
    c == ' ' || c == '\t' || c == '\n' || c == '\r' || c == '\x0B' || c == '\x0C'
}

/// Remove leading and trailing ASCII whitespace.
pub fn trim_ascii_chars(s: &[char]) -> (r: Vec<char>)
    ensures
        r@ == trim_ascii(s@),
{
    let n = s.len();
    let mut a: usize = 0;
    while a < n && ascii_ws(s[a])
        invariant
            n == s@.len(),
            a <= n,
            forall|i: int| 0 <= i < a ==> is_ascii_ws(#[trigger] s@[i]),
        decreases n - a,
    {
        a = a + 1;
    }
    let mut b: usize = n;
    while b > a && ascii_ws(s[b - 1])
        invariant
            n == s@.len(),
            a <= b <= n,
            forall|i: int| b <= i < n ==> is_ascii_ws(#[trigger] s@[i]),
        decreases b,
    {
        b = b - 1;
    }
    proof {
        lemma_leading_ws_exact(s@, a as nat);
        let t = s@.subrange(a as int, n as int);
        assert forall|i: int| t.len() - (n - b) <= i < t.len() implies is_ascii_ws(#[trigger] t[i]) by {
            assert(t[i] == s@[a + i]);
        }
        if n - b < t.len() {
            assert(t[t.len() - 1 - (n - b)] == s@[b - 1]);
        }
        lemma_trailing_ws_exact(t, (n - b) as nat);
    }
    let mut r: Vec<char> = Vec::new();
    let mut i: usize = a;
    while i < b
        invariant
            n == s@.len(),
            a <= i <= b <= n,
            r@ == s@.subrange(a as int, i as int),
        decreases b - i,
    {
        r.push(s[i]);
        i = i + 1;
        proof {
            assert(r@ =~= s@.subrange(a as int, i as int));
        }
    }
    proof {
        assert(r@ =~= trim_ascii(s@));
    }
    r
}

/// The detail of a malformed `If-Match` header.
pub open spec fn malformed_detail(e: ParseETagError) -> Seq<char> {
    "If-Match header is malformed: "@ + e.spec_message()
}

/// The `412 Precondition Failed` problem of a stale `If-Match`.
pub open spec fn is_precondition_failed(e: ApiError) -> bool {
    &&& e.code == ErrorCode::BadRequest
    &&& e.status == 412
    &&& e.title@ == "Precondition Failed"@
    &&& e.detail@ == "ETag does not match; the resource has been modified"@
    &&& e.request_id is None
    &&& e.errors@.len() == 0
}

/// The `428 Precondition Required` problem of a missing `If-Match`.
pub open spec fn is_precondition_required(e: ApiError) -> bool {
    &&& e.code == ErrorCode::BadRequest
    &&& e.status == 428
    &&& e.title@ == "Precondition Required"@
    &&& e.detail@ == "If-Match header is required"@
    &&& e.request_id is None
    &&& e.errors@.len() == 0
}

/// Whether some listed tag weakly matches the current one.
pub open spec fn any_weak_match(tags: Seq<(Seq<char>, bool)>, current: (Seq<char>, bool)) -> bool {
    exists|i: int| 0 <= i < tags.len() && #[trigger] tags[i].0 == current.0
}

/// Whether some tag of the list weakly matches the current one.
fn any_matches_weak(tags: &Vec<ETag>, current: &ETag) -> (r: bool)
    ensures
        r == any_weak_match(tags@.map_values(|t: ETag| t@), current@),
{
    let ghost views = tags@.map_values(|t: ETag| t@);
    let mut i: usize = 0;
    while i < tags.len()
        invariant
            i <= tags@.len(),
            views == tags@.map_values(|t: ETag| t@),
            forall|j: int| 0 <= j < i ==> views[j].0 != current@.0,
        decreases tags@.len() - i,
    {
        if tags[i].matches_weak(current) {
            proof {
                assert(views[i as int].0 == current@.0);
            }
            return true;
        }
        i = i + 1;
    }
    false
}

/// Decide an `If-Match` check from the parsed tag list: the first parse
/// error becomes a `400`, a list with no weakly matching tag a `412`.
pub fn check_if_match_parsed(parsed: Result<Vec<ETag>, ParseETagError>, current: &ETag) -> (r: Result<
    (),
    ApiError,
>)
    ensures
        parsed matches Err(e) ==> (r is Err && r->Err_0.spec_new(
            ErrorCode::BadRequest,
            malformed_detail(e),
        )),
        parsed matches Ok(tags) ==> (r is Ok <==> any_weak_match(
            tags@.map_values(|t: ETag| t@),
            current@,
        )),
        parsed matches Ok(tags) ==> (r is Err ==> is_precondition_failed(r->Err_0)),
{
    match parsed {
        Err(e) => {
            let detail = crate::text::concat2("If-Match header is malformed: ", e.message().as_str());
            Err(ApiError::bad_request(detail))
        },
        Ok(tags) => {
            if any_matches_weak(&tags, current) {
                return Ok(());
            }
            let mut err = ApiError::new(
                ErrorCode::BadRequest,
                String::from_str("ETag does not match; the resource has been modified"),
            );
            err.status = 412;
            err.title = String::from_str("Precondition Failed");
            Err(err)
        },
    }
}

/// The outcome of an `If-Match` check on the raw header value and the
/// current tag, in terms of what the tag-list parser gives.
pub open spec fn if_match_outcome(raw: Option<Seq<u8>>, current: (Seq<char>, bool), r: Result<
    (),
    ApiError,
>) -> bool {
    match raw {
        None => r is Err && is_precondition_required(r->Err_0),
        Some(b) => if !(forall|i: int| 0 <= i < b.len() ==> visible_ascii(#[trigger] b[i])) {
            r is Err && r->Err_0.spec_new(
                ErrorCode::BadRequest,
                "If-Match header is not valid ASCII"@,
            )
        } else {
            let t = trim_ascii(b.map_values(|x: u8| x as char));
            if t == "*"@ {
                r is Ok
            } else {
                match etag_list_parse(t) {
                    Err(e) => r is Err && r->Err_0.spec_new(ErrorCode::BadRequest, malformed_detail(e)),
                    Ok(tags) => (r is Ok <==> any_weak_match(tags, current)) && (r is Err
                        ==> is_precondition_failed(r->Err_0)),
                }
            }
        },
    }
}

/// Validate the `If-Match` request header (its raw bytes, if present)
/// against the current tag.
///
/// A missing header is a `428`, a non-ASCII one a `400`, `*` always
/// matches, a malformed list is a `400`, and a list without a weakly
/// matching tag is a `412`.
pub fn check_if_match(if_match: Option<Vec<u8>>, current: &ETag) -> (r: Result<(), ApiError>)
    ensures
        if_match_outcome(
            match if_match {
                Some(b) => Some(b@),
                None => None,
            },
            current@,
            r,
        ),
{
    let raw = match if_match {
        None => {
            let mut err = ApiError::new(
                ErrorCode::BadRequest,
                String::from_str("If-Match header is required"),
            );
            err.status = 428;
            err.title = String::from_str("Precondition Required");
            return Err(err);
        },
        Some(b) => b,
    };
    let text = match header_value_text(raw.as_slice()) {
        Some(t) => t,
        None => {
            return Err(ApiError::bad_request(String::from_str("If-Match header is not valid ASCII")));
        },
    };
    proof {
        assert(text@ =~= raw@.map_values(|x: u8| x as char));
    }
    let chars = chars_of(text.as_str());
    let trimmed = trim_ascii_chars(chars.as_slice());
    let star = vec!['*'];
    proof {
        reveal_strlit("*");
        assert(star@ =~= "*"@);
    }
    if chars_eq(trimmed.as_slice(), star.as_slice()) {
        return Ok(());
    }
    let trimmed_text = string_from_chars(trimmed.as_slice());
    proof {
        assert forall|i: int| 0 <= i < chars@.len() implies (#[trigger] chars@[i] as u32) < 128 by {
            assert(visible_ascii(raw@[i]));
            assert(chars@[i] == raw@[i] as char);
        }
        lemma_trim_ascii_chars(chars@);
    }
    let parsed = parse_etag_list(trimmed_text.as_str());
    check_if_match_parsed(parsed, current)
}

} // verus!
