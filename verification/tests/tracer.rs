//! Tests for the span stack, the wire encoding and the export buffer.
//!
//! The encoding tests cross-check the tracer's output, byte for byte,
//! against the reference protobuf implementation encoding the same spans.

use lua_resty_protobuf::ExportBuffer;
use lua_resty_protobuf::Trace;
use lua_resty_protobuf::TraceError;

use opentelemetry_proto::tonic::common::v1::any_value;
use opentelemetry_proto::tonic::common::v1::AnyValue;
use opentelemetry_proto::tonic::common::v1::KeyValue;
use opentelemetry_proto::tonic::trace::v1::Span;
use prost::Message;

fn trace_id() -> Vec<u8> {
    (1u8..=16u8).collect()
}

fn span_id(seed: u8) -> Vec<u8> {
    vec![seed; 8]
}

fn reference_span(
    trace_id: &[u8],
    span_id: &[u8],
    parent: &[u8],
    name: &str,
    start: u64,
    end: u64,
    attributes: Vec<KeyValue>,
) -> Vec<u8> {
    let mut span = Span::default();
    span.trace_id = trace_id.to_vec();
    span.span_id = span_id.to_vec();
    span.parent_span_id = parent.to_vec();
    span.name = name.to_string();
    span.start_time_unix_nano = start;
    span.end_time_unix_nano = end;
    span.attributes = attributes;
    span.encode_to_vec()
}

fn attribute(key: &str, value: any_value::Value) -> KeyValue {
    let mut kv = KeyValue::default();
    kv.key = key.to_string();
    kv.value = Some(AnyValue { value: Some(value) });
    kv
}

#[test]
fn test_nested_spans_parent_links() {
    let mut trace = Trace::new_with_trace_id(trace_id());
    trace.enter_span_at("a", span_id(0xaa), 100);
    trace.enter_span_at("b", span_id(0xbb), 200);
    assert_eq!(trace.exit_span_at(300), Ok(()));
    assert_eq!(trace.exit_span_at(400), Ok(()));

    // "b" closed first and carries "a" as parent; "a" is a root span with
    // no parent field on the wire.
    let mut expected = reference_span(
        &trace_id(),
        &span_id(0xbb),
        &span_id(0xaa),
        "b",
        200,
        300,
        vec![],
    );
    expected.extend_from_slice(&reference_span(
        &trace_id(),
        &span_id(0xaa),
        &[],
        "a",
        100,
        400,
        vec![],
    ));
    assert_eq!(trace.get_serialized(), expected.as_slice());
}

#[test]
fn test_output_is_concatenation_of_exits() {
    let mut trace = Trace::new_with_trace_id(trace_id());
    let mut expected: Vec<u8> = Vec::new();
    for i in 0..3u8 {
        let name = format!("span-{}", i);
        trace.enter_span_at(&name, span_id(i + 1), 1000 + i as u64);
        assert_eq!(trace.exit_span_at(2000 + i as u64), Ok(()));
        expected.extend_from_slice(&reference_span(
            &trace_id(),
            &span_id(i + 1),
            &[],
            &name,
            1000 + i as u64,
            2000 + i as u64,
            vec![],
        ));
    }
    assert_eq!(trace.get_serialized(), expected.as_slice());
}

#[test]
fn test_attribute_types_match_reference_encoding() {
    let mut trace = Trace::new_with_trace_id(trace_id());
    trace.enter_span_at("work", span_id(7), 10);
    assert_eq!(trace.add_string_attribute("s", "value"), Ok(()));
    assert_eq!(trace.add_bool_attribute("b", true), Ok(()));
    assert_eq!(trace.add_bool_attribute("b", false), Ok(()));
    assert_eq!(trace.add_int64_attribute("i", -1), Ok(()));
    assert_eq!(trace.add_int64_attribute("i", 300), Ok(()));
    assert_eq!(
        trace.add_double_attribute("d", 3.25f64.to_bits()),
        Ok(())
    );
    assert_eq!(trace.exit_span_at(20), Ok(()));

    // Duplicate keys stay separate entries, in insertion order.
    let attributes = vec![
        attribute("s", any_value::Value::StringValue("value".to_string())),
        attribute("b", any_value::Value::BoolValue(true)),
        attribute("b", any_value::Value::BoolValue(false)),
        attribute("i", any_value::Value::IntValue(-1)),
        attribute("i", any_value::Value::IntValue(300)),
        attribute("d", any_value::Value::DoubleValue(3.25)),
    ];
    let expected = reference_span(&trace_id(), &span_id(7), &[], "work", 10, 20, attributes);
    assert_eq!(trace.get_serialized(), expected.as_slice());
}

#[test]
fn test_long_values_use_multi_byte_lengths() {
    let mut trace = Trace::new_with_trace_id(trace_id());
    let long_value = "x".repeat(300);
    trace.enter_span_at("long", span_id(9), 1);
    assert_eq!(trace.add_string_attribute("k", &long_value), Ok(()));
    assert_eq!(trace.exit_span_at(2), Ok(()));

    let attributes = vec![attribute(
        "k",
        any_value::Value::StringValue(long_value.clone()),
    )];
    let expected = reference_span(&trace_id(), &span_id(9), &[], "long", 1, 2, attributes);
    assert_eq!(trace.get_serialized(), expected.as_slice());
}

#[test]
fn test_multibyte_names_survive() {
    let mut trace = Trace::new_with_trace_id(trace_id());
    trace.enter_span_at("span \u{00e9}\u{4e16}", span_id(3), 5);
    assert_eq!(trace.exit_span_at(6), Ok(()));
    let expected = reference_span(
        &trace_id(),
        &span_id(3),
        &[],
        "span \u{00e9}\u{4e16}",
        5,
        6,
        vec![],
    );
    assert_eq!(trace.get_serialized(), expected.as_slice());
}

#[test]
fn test_random_identity_and_clock() {
    let mut trace = Trace::new();
    trace.enter_span("outer");
    trace.enter_span("inner");
    assert_eq!(trace.exit_span(), Ok(()));
    assert_eq!(trace.exit_span(), Ok(()));
    // Two closed spans were encoded: the output must be non-empty and must
    // start with the trace id field (tag 1, length 16).
    let bytes = trace.get_serialized();
    assert!(bytes.len() > 0);
    assert_eq!(bytes[0], 0x0a);
    assert_eq!(bytes[1], 16);
}

#[test]
fn test_exit_with_no_open_span_is_an_error() {
    let mut trace = Trace::new_with_trace_id(trace_id());
    assert_eq!(trace.exit_span_at(1), Err(TraceError::NoOpenSpan));
    assert_eq!(trace.exit_span(), Err(TraceError::NoOpenSpan));
    assert_eq!(trace.get_serialized(), &[] as &[u8]);
}

#[test]
fn test_attribute_with_no_open_span_is_an_error() {
    let mut trace = Trace::new_with_trace_id(trace_id());
    assert_eq!(
        trace.add_string_attribute("k", "v"),
        Err(TraceError::NoOpenSpan)
    );
    assert_eq!(trace.add_bool_attribute("k", true), Err(TraceError::NoOpenSpan));
    assert_eq!(trace.add_int64_attribute("k", 1), Err(TraceError::NoOpenSpan));
    assert_eq!(
        trace.add_double_attribute("k", 1.0f64.to_bits()),
        Err(TraceError::NoOpenSpan)
    );
}

#[test]
fn test_get_serialized_into_copies_exactly() {
    let mut trace = Trace::new_with_trace_id(trace_id());
    trace.enter_span_at("a", span_id(1), 1);
    assert_eq!(trace.exit_span_at(2), Ok(()));
    let encoded = trace.get_serialized().to_vec();

    // Destination big enough: exact byte count, exact bytes, tail kept.
    let mut dest = vec![0xffu8; encoded.len() + 4];
    let n = trace.get_serialized_into(&mut dest);
    assert_eq!(n, encoded.len());
    assert_eq!(&dest[..n], encoded.as_slice());
    assert_eq!(&dest[n..], &[0xff, 0xff, 0xff, 0xff]);

    // Destination too small: zero returned, nothing written.
    let mut small = vec![0xffu8; encoded.len() - 1];
    let n = trace.get_serialized_into(&mut small);
    assert_eq!(n, 0);
    assert!(small.iter().all(|b| *b == 0xff));
}

#[test]
fn test_export_buffer_below_capacity_never_sends() {
    let mut buffer = ExportBuffer::new(100);
    assert_eq!(buffer.submit(&[1u8; 20]), Ok(None));
    assert_eq!(buffer.submit(&[2u8; 20]), Ok(None));
    assert_eq!(buffer.submit(&[3u8; 20]), Ok(None));
    let mut expected = vec![1u8; 20];
    expected.extend_from_slice(&[2u8; 20]);
    expected.extend_from_slice(&[3u8; 20]);
    assert_eq!(buffer.pending(), expected.as_slice());
}

#[test]
fn test_export_buffer_first_overflow_sends_prior_contents() {
    let mut buffer = ExportBuffer::new(50);
    assert_eq!(buffer.submit(&[1u8; 30]), Ok(None));
    // 30 + 25 reaches the cap: the prior 30 bytes are flushed first, then
    // the new payload starts the next batch.
    assert_eq!(buffer.submit(&[2u8; 25]), Ok(Some(vec![1u8; 30])));
    assert_eq!(buffer.pending(), &[2u8; 25] as &[u8]);
}

#[test]
fn test_export_buffer_flushes_when_exactly_reaching_capacity() {
    let mut buffer = ExportBuffer::new(50);
    assert_eq!(buffer.submit(&[1u8; 30]), Ok(None));
    assert_eq!(buffer.submit(&[2u8; 20]), Ok(Some(vec![1u8; 30])));
    assert_eq!(buffer.pending(), &[2u8; 20] as &[u8]);
}

#[test]
fn test_export_buffer_rejects_oversized_payload() {
    let mut buffer = ExportBuffer::new(50);
    assert_eq!(buffer.submit(&[9u8; 51]), Err(TraceError::PayloadTooLarge));
    assert_eq!(buffer.pending(), &[] as &[u8]);
}

#[test]
fn test_export_buffer_take_pending_empties() {
    let mut buffer = ExportBuffer::new(50);
    assert_eq!(buffer.submit(&[7u8; 10]), Ok(None));
    assert_eq!(buffer.take_pending(), vec![7u8; 10]);
    assert_eq!(buffer.pending(), &[] as &[u8]);
}
