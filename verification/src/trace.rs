//! Captured tracing spans, for asserting on instrumentation in tests: the
//! records, the buffer that collects them as spans close, and the queries
//! that the span assertions make.

use vstd::prelude::*;
use crate::text::str_eq;

verus! {

/// A single recorded span.
#[derive(Debug)]
pub struct SpanRecord {
    /// Span name.
    pub name: String,
    /// Key-value attributes recorded on the span.
    pub attributes: Vec<(String, String)>,
}

/// The abstract content of a span record: its name and its attributes.
pub type SpanModel = (Seq<char>, Seq<(Seq<char>, Seq<char>)>);

/// The view of a list of attributes.
pub open spec fn attributes_view(a: Seq<(String, String)>) -> Seq<(Seq<char>, Seq<char>)> {
    a.map_values(|e: (String, String)| (e.0@, e.1@))
}

impl View for SpanRecord {
    type V = SpanModel;

    open spec fn view(&self) -> SpanModel {
        (self.name@, attributes_view(self.attributes@))
    }
}

/// The view of a list of span records.
pub open spec fn spans_view(s: Seq<SpanRecord>) -> Seq<SpanModel> {
    s.map_values(|r: SpanRecord| r@)
}

/// A copy of a list of attributes.
fn copy_attributes(a: &Vec<(String, String)>) -> (r: Vec<(String, String)>)
    ensures
        attributes_view(r@) == attributes_view(a@),
{
    let mut r: Vec<(String, String)> = Vec::new();
    let mut i: usize = 0;
    while i < a.len()
        invariant
            i <= a@.len(),
            r@.len() == i,
            forall|j: int| 0 <= j < i ==> #[trigger] r@[j].0@ == a@[j].0@ && r@[j].1@ == a@[j].1@,
        decreases a@.len() - i,
    {
        let k = String::from_str(a[i].0.as_str());
        let v = String::from_str(a[i].1.as_str());
        r.push((k, v));
        i = i + 1;
    }
    proof {
        assert(attributes_view(r@) =~= attributes_view(a@));
    }
    r
}

impl SpanRecord {
    /// A copy of this record.
    pub fn copy(&self) -> (r: SpanRecord)
        ensures
            r@ == self@,
    {
        SpanRecord { name: String::from_str(self.name.as_str()), attributes: copy_attributes(&self.attributes) }
    }
}

/// In-memory span collector: the records of closed spans, in closing order.
#[derive(Debug)]
pub struct CaptureExporter {
    spans: Vec<SpanRecord>,
}

impl View for CaptureExporter {
    type V = Seq<SpanModel>;

    closed spec fn view(&self) -> Seq<SpanModel> {
        spans_view(self.spans@)
    }
}

impl CaptureExporter {
    /// An empty collector.
    pub fn new() -> (r: Self)
        ensures
            r@ == Seq::<SpanModel>::empty(),
    {
        let r = CaptureExporter { spans: Vec::new() };
        proof {
            assert(spans_view(r.spans@) =~= Seq::<SpanModel>::empty());
        }
        r
    }

    /// All captured spans, in closing order; the buffer is unchanged.
    pub fn spans(&self) -> (r: Vec<SpanRecord>)
        ensures
            spans_view(r@) == self@,
    {
        let mut r: Vec<SpanRecord> = Vec::new();
        let mut i: usize = 0;
        while i < self.spans.len()
            invariant
                i <= self.spans@.len(),
                r@.len() == i,
                forall|j: int| 0 <= j < i ==> #[trigger] r@[j]@ == self.spans@[j]@,
            decreases self.spans@.len() - i,
        {
            let c = self.spans[i].copy();
            r.push(c);
            i = i + 1;
        }
        proof {
            assert(spans_view(r@) =~= spans_view(self.spans@));
        }
        r
    }

    /// Take all captured spans, leaving the buffer empty.
    pub fn drain(&mut self) -> (r: Vec<SpanRecord>)
        ensures
            spans_view(r@) == old(self)@,
            final(self)@ == Seq::<SpanModel>::empty(),
    {
        let mut r: Vec<SpanRecord> = Vec::new();
        std::mem::swap(&mut r, &mut self.spans);
        proof {
            assert(spans_view(self.spans@) =~= Seq::<SpanModel>::empty());
        }
        r
    }

    /// Record a closed span.
    pub fn push(&mut self, record: SpanRecord)
        ensures
            final(self)@ == old(self)@.push(record@),
    {
        let ghost before = self.spans@;
        self.spans.push(record);
        proof {
            assert(spans_view(self.spans@) =~= spans_view(before).push(record@));
        }
    }
}

impl Default for CaptureExporter {
    fn default() -> (r: Self)
        ensures
            r@ == Seq::<SpanModel>::empty(),
    {
        CaptureExporter::new()
    }
}

/// Whether some captured span has the given name.
pub open spec fn some_span_named(spans: Seq<SpanModel>, name: Seq<char>) -> bool {
    exists|i: int| 0 <= i < spans.len() && (#[trigger] spans[i]).0 == name
}

/// Whether some captured span with the given name carries the attribute.
pub open spec fn some_span_with_attribute(
    spans: Seq<SpanModel>,
    name: Seq<char>,
    key: Seq<char>,
    value: Seq<char>,
) -> bool {
    exists|i: int, j: int|
        0 <= i < spans.len() && (#[trigger] spans[i]).0 == name && 0 <= j < spans[i].1.len()
            && #[trigger] spans[i].1[j] == (key, value)
}

/// Whether some span has the given name.
pub fn has_span_named(spans: &Vec<SpanRecord>, name: &str) -> (r: bool)
    ensures
        r == some_span_named(spans_view(spans@), name@),
{
    let ghost v = spans_view(spans@);
    let mut i: usize = 0;
    while i < spans.len()
        invariant
            i <= spans@.len(),
            v == spans_view(spans@),
            forall|k: int| 0 <= k < i ==> (#[trigger] v[k]).0 != name@,
        decreases spans@.len() - i,
    {
        if str_eq(spans[i].name.as_str(), name) {
            proof {
                assert(v[i as int].0 == name@);
            }
            return true;
        }
        i = i + 1;
    }
    false
}

/// Whether some attribute of the list is the given pair.
fn has_attribute(a: &Vec<(String, String)>, key: &str, value: &str) -> (r: bool)
    ensures
        r == exists|j: int|
            0 <= j < a@.len() && #[trigger] attributes_view(a@)[j] == (key@, value@),
{
    let ghost v = attributes_view(a@);
    let mut j: usize = 0;
    while j < a.len()
        invariant
            j <= a@.len(),
            v == attributes_view(a@),
            forall|k: int| 0 <= k < j ==> #[trigger] v[k] != (key@, value@),
        decreases a@.len() - j,
    {
        if str_eq(a[j].0.as_str(), key) && str_eq(a[j].1.as_str(), value) {
            proof {
                assert(v[j as int] == (key@, value@));
            }
            return true;
        }
        j = j + 1;
    }
    false
}

/// Whether some span with the given name carries the attribute.
pub fn has_span_with_attribute(spans: &Vec<SpanRecord>, name: &str, key: &str, value: &str) -> (r:
    bool)
    ensures
        r == some_span_with_attribute(spans_view(spans@), name@, key@, value@),
{
    let ghost v = spans_view(spans@);
    let mut i: usize = 0;
    while i < spans.len()
        invariant
            i <= spans@.len(),
            v == spans_view(spans@),
            forall|k: int, j: int|
                0 <= k < i && (#[trigger] v[k]).0 == name@ && 0 <= j < v[k].1.len() ==> #[trigger] v[k].1[j]
                    != (key@, value@),
        decreases spans@.len() - i,
    {
        if str_eq(spans[i].name.as_str(), name) && has_attribute(&spans[i].attributes, key, value) {
            proof {
                let j = choose|j: int|
                    0 <= j < spans@[i as int].attributes@.len() && #[trigger] attributes_view(
                        spans@[i as int].attributes@,
                    )[j] == (key@, value@);
                assert(v[i as int].1[j] == (key@, value@));
            }
            return true;
        }
        proof {
            assert forall|k: int, j: int|
                0 <= k < i + 1 && (#[trigger] v[k]).0 == name@ && 0 <= j < v[k].1.len() implies #[trigger] v[k].1[j]
                    != (key@, value@) by {
                if k == i {
                    assert(v[k].1 == attributes_view(spans@[k].attributes@));
                }
            }
        }
        i = i + 1;
    }
    false
}

} // verus!
