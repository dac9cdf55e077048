//! Route labels for request metrics: a request path whose identifier
//! segments (unsigned integers and UUIDs) are replaced by `{id}`, so that
//! metrics are recorded per route rather than per resource.

use vstd::prelude::*;
use crate::text::{chars_of, string_from_chars};

verus! {

/// Whether a character is a decimal digit.
pub open spec fn is_digit(c: char) -> bool {
    '0' <= c && c <= '9'
}

/// Whether a character is an ASCII hexadecimal digit.
pub open spec fn is_hex_digit(c: char) -> bool {
    ('0' <= c && c <= '9') || ('a' <= c && c <= 'f') || ('A' <= c && c <= 'F')
}

/// The value of a sequence of decimal digits.
pub open spec fn digits_value(d: Seq<char>) -> int
    decreases d.len(),
{
    if d.len() == 0 {
        0
    } else {
        digits_value(d.drop_last()) * 10 + (d.last() as int - '0' as int)
    }
}

/// The digits of an unsigned number's text: what follows an optional `+`.
pub open spec fn unsigned_digits(s: Seq<char>) -> Seq<char> {
    if s.len() > 0 && s[0] == '+' {
        s.drop_first()
    } else {
        s
    }
}

/// Whether a text parses as a `u64` (`str::parse::<u64>`): an optional `+`,
/// then at least one decimal digit, with a value that fits in 64 bits.
pub open spec fn is_u64_text(s: Seq<char>) -> bool {
    let d = unsigned_digits(s);
    &&& d.len() > 0
    &&& forall|i: int| 0 <= i < d.len() ==> is_digit(#[trigger] d[i])
    &&& digits_value(d) <= u64::MAX
}

/// Whether a text looks like a hyphenated UUID: 36 characters, hyphens at
/// positions 8, 13, 18 and 23, hexadecimal digits elsewhere.
pub open spec fn is_uuid_like_text(s: Seq<char>) -> bool {
    &&& s.len() == 36
    &&& forall|i: int|
        0 <= i < 36 ==> if i == 8 || i == 13 || i == 18 || i == 23 {
            #[trigger] s[i] == '-'
        } else {
            is_hex_digit(s[i])
        }
}

/// A segment's label: `{id}` for identifiers, else the segment itself.
pub open spec fn segment_label(seg: Seq<char>) -> Seq<char> {
    if is_u64_text(seg) || is_uuid_like_text(seg) {
        "{id}"@
    } else {
        seg
    }
}

/// The position of the first `/` (the length when there is none).
pub open spec fn first_slash(s: Seq<char>) -> int
    decreases s.len(),
{
    if s.len() == 0 {
        0
    } else if s[0] == '/' {
        0
    } else {
        1 + first_slash(s.drop_first())
    }
}

proof fn lemma_first_slash(s: Seq<char>)
    ensures
        0 <= first_slash(s) <= s.len(),
        forall|i: int| 0 <= i < first_slash(s) ==> #[trigger] s[i] != '/',
        first_slash(s) < s.len() ==> s[first_slash(s)] == '/',
    decreases s.len(),
{
    if s.len() > 0 && s[0] != '/' {
        lemma_first_slash(s.drop_first());
        assert forall|i: int| 0 <= i < first_slash(s) implies #[trigger] s[i] != '/' by {
            if i > 0 {
                assert(s[i] == s.drop_first()[i - 1]);
            }
        }
    }
}

proof fn lemma_first_slash_exact(s: Seq<char>, j: int)
    requires
        0 <= j <= s.len(),
        forall|i: int| 0 <= i < j ==> #[trigger] s[i] != '/',
        j < s.len() ==> s[j] == '/',
    ensures
        first_slash(s) == j,
    decreases s.len(),
{
    if j > 0 {
        assert(s[0] != '/');
        let t = s.drop_first();
        assert forall|i: int| 0 <= i < j - 1 implies #[trigger] t[i] != '/' by {
            assert(t[i] == s[i + 1]);
        }
        if j - 1 < t.len() {
            assert(t[j - 1] == s[j]);
        }
        lemma_first_slash_exact(t, j - 1);
    }
}

/// The path with every identifier segment replaced by `{id}`; the segments
/// are those between `/` characters, and the slashes are kept.
pub open spec fn normalized_path(s: Seq<char>) -> Seq<char>
    decreases s.len(),
{
    let k = first_slash(s);
    if k >= s.len() || k < 0 {
        segment_label(s)
    } else {
        segment_label(s.subrange(0, k)) + "/"@ + normalized_path(s.subrange(k + 1, s.len() as int))
    }
}

/// Whether every character is a decimal digit.
fn all_digits(d: &[char], from: usize) -> (r: bool)
    requires
        from <= d@.len(),
    ensures
        r == forall|i: int| from <= i < d@.len() ==> is_digit(#[trigger] d@[i]),
{
    let mut i = from;
    while i < d.len()
        invariant
            from <= i <= d@.len(),
            forall|k: int| from <= k < i ==> is_digit(#[trigger] d@[k]),
        decreases d@.len() - i,
    {
        if !('0' <= d[i] && d[i] <= '9') {
            return false;
        }
        i = i + 1;
    }
    true
}

/// A longer run of digits never has a smaller value.
proof fn lemma_digits_value_monotone(d: Seq<char>, k: int)
    requires
        0 <= k <= d.len(),
        forall|i: int| 0 <= i < d.len() ==> is_digit(#[trigger] d[i]),
    ensures
        0 <= digits_value(d.subrange(0, k)) <= digits_value(d),
    decreases d.len(),
{
    if d.len() > 0 {
        let p = d.drop_last();
        assert forall|i: int| 0 <= i < p.len() implies is_digit(#[trigger] p[i]) by {
            assert(p[i] == d[i]);
        }
        if k == d.len() {
            assert(d.subrange(0, k) =~= d);
            lemma_digits_value_monotone(p, p.len() as int);
            assert(p.subrange(0, p.len() as int) =~= p);
        } else {
            lemma_digits_value_monotone(p, k);
            assert(p.subrange(0, k) =~= d.subrange(0, k));
            lemma_digits_value_monotone(p, p.len() as int);
            assert(p.subrange(0, p.len() as int) =~= p);
        }
        assert(is_digit(d.last()));
    }
}

/// Whether a text parses as a `u64`.
pub fn parses_as_u64(s: &[char]) -> (r: bool)
    ensures
        r == is_u64_text(s@),
{
    let start: usize = if s.len() > 0 && s[0] == '+' {
        1
    } else {
        0
    };
    let ghost d = unsigned_digits(s@);
    proof {
        assert(d =~= s@.subrange(start as int, s@.len() as int));
    }
    if start >= s.len() {
        return false;
    }
    if !all_digits(s, start) {
        proof {
            let k = choose|k: int| start <= k < s@.len() && !is_digit(#[trigger] s@[k]);
            assert(d[k - start] == s@[k]);
            assert(!is_digit(d[k - start]));
            assert(!(forall|q: int| 0 <= q < d.len() ==> is_digit(#[trigger] d[q])));
        }
        return false;
    }
    proof {
        assert forall|i: int| 0 <= i < d.len() implies is_digit(#[trigger] d[i]) by {
            assert(d[i] == s@[start + i]);
        }
    }
    let mut v: u64 = 0;
    let mut i: usize = start;
    while i < s.len()
        invariant
            start <= i <= s@.len(),
            d == s@.subrange(start as int, s@.len() as int),
            forall|k: int| 0 <= k < d.len() ==> is_digit(#[trigger] d[k]),
            v == digits_value(d.subrange(0, i - start)),
            d == unsigned_digits(s@),
        decreases s@.len() - i,
    {
        proof {
            assert(d[i - start] == s@[i as int]);
            assert(is_digit(d[i - start]));
        }
        let digit = (s[i] as u32 - '0' as u32) as u64;
        proof {
            assert(d.subrange(0, i - start + 1).drop_last() =~= d.subrange(0, i - start));
            assert(d.subrange(0, i - start + 1).last() == s@[i as int]);
            assert(digit == s@[i as int] as int - '0' as int);
            assert(digits_value(d.subrange(0, i - start + 1)) == v * 10 + digit);
        }
        if v > (u64::MAX - digit) / 10 {
            proof {
                assert(v * 10 + digit > u64::MAX) by (nonlinear_arith)
                    requires
                        v > (u64::MAX - digit) / 10,
                        digit <= 9,
                ;
                lemma_digits_value_monotone(d, i - start + 1);
                assert(digits_value(d) > u64::MAX);
            }
            return false;
        }
        proof {
            assert(v * 10 + digit <= u64::MAX) by (nonlinear_arith)
                requires
                    v <= (u64::MAX - digit) / 10,
                    digit <= 9,
            ;
        }
        v = v * 10 + digit;
        i = i + 1;
    }
    proof {
        assert(d.subrange(0, d.len() as int) =~= d);
    }
    true
}

/// Whether a segment looks like a hyphenated UUID.
pub fn is_uuid_like(s: &[char]) -> (r: bool)
    ensures
        r == is_uuid_like_text(s@),
{
    if s.len() != 36 {
        return false;
    }
    let mut i: usize = 0;
    while i < 36
        invariant
            s@.len() == 36,
            i <= 36,
            forall|k: int|
                0 <= k < i ==> if k == 8 || k == 13 || k == 18 || k == 23 {
                    #[trigger] s@[k] == '-'
                } else {
                    is_hex_digit(s@[k])
                },
        decreases 36 - i,
    {
        let c = s[i];
        let ok = if i == 8 || i == 13 || i == 18 || i == 23 {
            c == '-'
        } else {
            ('0' <= c && c <= '9') || ('a' <= c && c <= 'f') || ('A' <= c && c <= 'F')
        };
        if !ok {
            return false;
        }
        i = i + 1;
    }
    true
}

/// The label of one segment.
fn label_segment(seg: &[char], out: &mut Vec<char>)
    ensures
        final(out)@ == old(out)@ + segment_label(seg@),
{
    if parses_as_u64(seg) || is_uuid_like(seg) {
        out.push('{');
        out.push('i');
        out.push('d');
        out.push('}');
        proof {
            reveal_strlit("{id}");
            assert(final(out)@ =~= old(out)@ + "{id}"@);
        }
    } else {
        let mut i: usize = 0;
        let ghost start = out@;
        while i < seg.len()
            invariant
                i <= seg@.len(),
                out@ == start + seg@.subrange(0, i as int),
            decreases seg@.len() - i,
        {
            out.push(seg[i]);
            i = i + 1;
            proof {
                assert(out@ =~= start + seg@.subrange(0, i as int));
            }
        }
        proof {
            assert(seg@.subrange(0, seg@.len() as int) =~= seg@);
        }
    }
}

/// The route label of a request path: every segment that parses as a
/// `u64` or looks like a UUID becomes `{id}`.
pub fn normalize_path(path: &str) -> (r: String)
    ensures
        r@ == normalized_path(path@),
{
    let s = chars_of(path);
    let n = s.len();
    let mut out: Vec<char> = Vec::new();
    let mut i: usize = 0;
    let mut done = false;
    proof {
        assert(s@.subrange(0, n as int) =~= s@);
        assert(out@ + normalized_path(s@.subrange(0, n as int)) =~= normalized_path(s@));
    }
    while !done
        invariant
            n == s@.len(),
            s@ == path@,
            i <= n,
            !done ==> out@ + normalized_path(s@.subrange(i as int, n as int)) == normalized_path(s@),
            done ==> out@ == normalized_path(s@),
        decreases (if done { 0 } else { n + 1 - i }),
    {
        let ghost t = s@.subrange(i as int, n as int);
        let mut j: usize = i;
        while j < n && s[j] != '/'
            invariant
                i <= j <= n,
                n == s@.len(),
                forall|k: int| i <= k < j ==> s@[k] != '/',
            decreases n - j,
        {
            j = j + 1;
        }
        let mut seg: Vec<char> = Vec::new();
        let mut k: usize = i;
        while k < j
            invariant
                i <= k <= j <= n,
                n == s@.len(),
                seg@ == s@.subrange(i as int, k as int),
            decreases j - k,
        {
            seg.push(s[k]);
            k = k + 1;
            proof {
                assert(seg@ =~= s@.subrange(i as int, k as int));
            }
        }
        proof {
            assert forall|q: int| 0 <= q < j - i implies #[trigger] t[q] != '/' by {
                assert(t[q] == s@[i + q]);
            }
            if j < n {
                assert(t[j - i] == s@[j as int]);
            }
            lemma_first_slash_exact(t, j - i);
            assert(t.subrange(0, j - i) =~= seg@);
        }
        let ghost before = out@;
        label_segment(seg.as_slice(), &mut out);
        if j == n {
            proof {
                assert(t =~= seg@);
            }
            done = true;
        } else {
            out.push('/');
            proof {
                assert(t.subrange(j - i + 1, t.len() as int) =~= s@.subrange(j + 1, n as int));
                reveal_strlit("/");
                assert(out@ =~= before + segment_label(seg@) + "/"@);
            }
            i = j + 1;
        }
    }
    string_from_chars(out.as_slice())
}

// ── Request metric labels ────────────────────────────────────────────────────

/// The decimal digit of a value below ten.
pub open spec fn decimal_digit(d: int) -> char {
    if 0 <= d <= 9 {
        (('0' as int) + d) as char
    } else {
        '0'
    }
}

/// The decimal text of a natural number, without leading zeros.
pub open spec fn decimal_text(n: nat) -> Seq<char>
    decreases n,
{
    if n < 10 {
        seq![decimal_digit(n as int)]
    } else {
        decimal_text(n / 10) + seq![decimal_digit((n % 10) as int)]
    }
}

/// The decimal text of a status code (its `to_string`).
pub fn status_label(status: u16) -> (r: String)
    ensures
        r@ == decimal_text(status as nat),
{
    let mut digits: Vec<char> = Vec::new();
    let mut n: u16 = status;
    let ghost mut suffix: Seq<char> = Seq::empty();
    loop
        invariant_except_break
            decimal_text(status as nat) == decimal_text(n as nat) + suffix,
        invariant
            digits@ == suffix.reverse(),
        ensures
            decimal_text(status as nat) == suffix,
            digits@ == suffix.reverse(),
        decreases n,
    {
        let d = n % 10;
        let c = if d == 0 { '0' } else if d == 1 { '1' } else if d == 2 { '2' } else if d == 3 {
            '3'
        } else if d == 4 { '4' } else if d == 5 { '5' } else if d == 6 { '6' } else if d == 7 {
            '7'
        } else if d == 8 { '8' } else { '9' };
        proof {
            assert(c == decimal_digit(d as int));
        }
        digits.push(c);
        if n < 10 {
            proof {
                assert(decimal_text(n as nat) == seq![c]);
                assert(decimal_text(n as nat) + suffix =~= seq![c] + suffix);
                suffix = seq![c] + suffix;
                assert(digits@ =~= suffix.reverse());
            }
            break;
        }
        proof {
            assert(decimal_text(n as nat) == decimal_text((n / 10) as nat) + seq![c]);
            assert(decimal_text(n as nat) + suffix =~= decimal_text((n / 10) as nat) + (seq![c] + suffix));
            suffix = seq![c] + suffix;
            assert(digits@ =~= suffix.reverse());
        }
        n = n / 10;
    }
    let mut out: Vec<char> = Vec::new();
    let mut i: usize = digits.len();
    while i > 0
        invariant
            i <= digits@.len(),
            out@ == digits@.subrange(i as int, digits@.len() as int).reverse(),
        decreases i,
    {
        i = i - 1;
        out.push(digits[i]);
        proof {
            assert(out@ =~= digits@.subrange(i as int, digits@.len() as int).reverse());
        }
    }
    proof {
        assert(digits@.subrange(0, digits@.len() as int) =~= digits@);
        assert(out@ =~= suffix);
        assert(decimal_text(status as nat) =~= suffix);
    }
    string_from_chars(out.as_slice())
}

/// The metric labels of a request: its method, its route (the matched
/// route template, else the normalised path) and its status code.
pub fn metric_labels(method: &str, matched_path: Option<String>, path: &str, status: u16) -> (r: (
    String,
    String,
    String,
))
    ensures
        r.0@ == method@,
        r.1@ == (match matched_path {
            Some(m) => m@,
            None => normalized_path(path@),
        }),
        r.2@ == decimal_text(status as nat),
{
    let route = match matched_path {
        Some(m) => m,
        None => normalize_path(path),
    };
    (String::from_str(method), route, status_label(status))
}

// ── Laws ─────────────────────────────────────────────────────────────────────

/// A label never holds a `/` when its segment holds none, and labelling it
/// again changes nothing.
proof fn lemma_label_stable(seg: Seq<char>)
    requires
        forall|i: int| 0 <= i < seg.len() ==> #[trigger] seg[i] != '/',
    ensures
        forall|i: int|
            0 <= i < segment_label(seg).len() ==> #[trigger] segment_label(seg)[i] != '/',
        segment_label(segment_label(seg)) == segment_label(seg),
{
    reveal_strlit("{id}");
    let id = "{id}"@;
    assert(id.len() == 4 && id[0] == '{' && id[1] == 'i' && id[2] == 'd' && id[3] == '}');
    assert(!is_uuid_like_text(id));
    assert(!is_digit(unsigned_digits(id)[0]));
    assert(!is_u64_text(id));
}

/// Normalising a route label again leaves it unchanged: labels are fixed
/// points of the normalisation.
pub proof fn lemma_normalize_path_idempotent(s: Seq<char>)
    ensures
        normalized_path(normalized_path(s)) == normalized_path(s),
    decreases s.len(),
{
    lemma_first_slash(s);
    let k = first_slash(s);
    if k >= s.len() {
        lemma_label_stable(s);
        let l = segment_label(s);
        lemma_first_slash(l);
        if first_slash(l) < l.len() {
            assert(l[first_slash(l)] == '/');
        }
    } else {
        let seg = s.subrange(0, k);
        let rest = s.subrange(k + 1, s.len() as int);
        assert forall|i: int| 0 <= i < seg.len() implies #[trigger] seg[i] != '/' by {
            assert(seg[i] == s[i]);
        }
        lemma_label_stable(seg);
        lemma_normalize_path_idempotent(rest);
        let l = segment_label(seg);
        let nr = normalized_path(rest);
        let t = l + "/"@ + nr;
        reveal_strlit("/");
        assert(t[l.len() as int] == '/');
        assert forall|i: int| 0 <= i < l.len() implies #[trigger] t[i] != '/' by {
            assert(t[i] == l[i]);
        }
        lemma_first_slash_exact(t, l.len() as int);
        assert(t.subrange(0, l.len() as int) =~= l);
        assert(t.subrange(l.len() as int + 1, t.len() as int) =~= nr);
    }
}

} // verus!
