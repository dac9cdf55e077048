use socle::trace::{has_span_named, has_span_with_attribute, CaptureExporter, SpanRecord};

fn span(name: &str, attrs: &[(&str, &str)]) -> SpanRecord {
    SpanRecord {
        name: name.into(),
        attributes: attrs.iter().map(|(k, v)| (k.to_string(), v.to_string())).collect(),
    }
}

#[test]
fn capture_exporter_spans_keeps_buffer() {
    let mut e = CaptureExporter::default();
    e.push(span("a", &[]));
    e.push(span("b", &[("k", "v")]));
    let s = e.spans();
    assert_eq!(s.len(), 2);
    assert_eq!(s[1].name, "b");
    assert_eq!(e.spans().len(), 2);
}

#[test]
fn capture_exporter_drain_returns_all_and_empties() {
    let mut e = CaptureExporter::new();
    e.push(span("my_op", &[]));
    let drained = e.drain();
    assert_eq!(drained.len(), 1);
    assert_eq!(drained[0].name, "my_op");
    assert!(e.spans().is_empty());
    assert!(e.drain().is_empty());
}

#[test]
fn span_queries_match_name_and_attribute() {
    let spans = vec![span("request", &[("method", "GET")]), span("db", &[])];
    assert!(has_span_named(&spans, "db"));
    assert!(!has_span_named(&spans, "cache"));
    assert!(has_span_with_attribute(&spans, "request", "method", "GET"));
    assert!(!has_span_with_attribute(&spans, "request", "method", "POST"));
    assert!(!has_span_with_attribute(&spans, "db", "method", "GET"));
}
